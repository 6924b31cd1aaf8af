//! Caches for the metadata that is expensive to obtain: the owning user and
//! the thread count of a process.
//!
//! Each cache remembers what was resolved per process identifier and the
//! time at which it was last emptied. Once that time lies further back than
//! the cache's time to live, the whole cache is emptied before it is
//! consulted again. The query itself is made by the caller; the caches take
//! its output as text.

use crate::text::{parse_count, parsed_count, trim, trimmed};
use std::collections::HashMap;
use vstd::prelude::*;

verus! {

/// Milliseconds for which resolved users stay valid.
pub const USER_TTL_MS: u64 = 30_000;

/// Milliseconds for which resolved thread counts stay valid.
pub const THREAD_TTL_MS: u64 = 5_000;

/// Time that has passed from `since` to `now`; none if `now` is earlier.
pub open spec fn elapsed(since: u64, now: u64) -> nat {
    if now >= since {
        (now - since) as nat
    } else {
        0
    }
}

/// The text of an optional string.
pub open spec fn text_of(output: Option<&str>) -> Option<Seq<char>> {
    match output {
        Some(text) => Some(text@),
        None => None,
    }
}

/// The user that the output of an owner query names: the output without
/// surrounding white space, or `unknown` when the query failed or printed
/// nothing else.
pub open spec fn user_name(output: Option<Seq<char>>) -> Seq<char> {
    match output {
        Some(text) => if trimmed(text).len() > 0 {
            trimmed(text)
        } else {
            "unknown"@
        },
        None => "unknown"@,
    }
}

/// The thread count that the output of a thread query gives: the number
/// written between surrounding white space, or none when the query failed
/// or printed anything else.
pub open spec fn thread_count(output: Option<Seq<char>>) -> Option<usize> {
    match output {
        Some(text) => parsed_count(trimmed(text)),
        None => None,
    }
}

/// Reads the user from the output of an owner query.
pub fn read_user(output: Option<&str>) -> (user: String)
    ensures
        user@ == user_name(text_of(output)),
{
    match output {
        Some(text) => {
            let name = trim(text);
            if name.unicode_len() > 0 {
                String::from_str(name)
            } else {
                String::from_str("unknown")
            }
        },
        None => String::from_str("unknown"),
    }
}

/// Reads the thread count from the output of a thread query.
pub fn read_thread_count(output: Option<&str>) -> (count: Option<usize>)
    ensures
        count == thread_count(text_of(output)),
{
    match output {
        Some(text) => parse_count(trim(text)),
        None => None,
    }
}

/// What a [`UserCache`] holds: the user per process identifier and the time
/// at which the cache was last emptied.
pub ghost struct UserCacheView {
    pub entries: Map<u32, Seq<char>>,
    pub since: u64,
}

impl UserCacheView {
    /// Whether the entries are too old at `now`.
    pub open spec fn stale(self, now: u64) -> bool {
        elapsed(self.since, now) > USER_TTL_MS
    }

    /// The cache as a lookup at `now` finds it: emptied if it was stale.
    pub open spec fn refreshed(self, now: u64) -> UserCacheView {
        if self.stale(now) {
            UserCacheView { entries: Map::empty(), since: now }
        } else {
            self
        }
    }

    /// Whether a lookup of `pid` at `now` is answered from the cache.
    pub open spec fn hit(self, pid: u32, now: u64) -> bool {
        self.refreshed(now).entries.contains_key(pid)
    }

    /// The user that a lookup of `pid` at `now` returns, where `output` is
    /// the output of the owner query that a miss needs.
    pub open spec fn user(self, pid: u32, now: u64, output: Option<Seq<char>>) -> Seq<char> {
        if self.hit(pid, now) {
            self.refreshed(now).entries[pid]
        } else {
            user_name(output)
        }
    }

    /// The cache after that lookup: it holds what the lookup returned.
    pub open spec fn after_lookup(
        self,
        pid: u32,
        now: u64,
        output: Option<Seq<char>>,
    ) -> UserCacheView {
        UserCacheView {
            entries: self.refreshed(now).entries.insert(pid, self.user(pid, now, output)),
            since: self.refreshed(now).since,
        }
    }
}

/// Remembers the owning user per process identifier.
pub struct UserCache {
    cache: HashMap<u32, String>,
    last_refresh: u64,
}

impl View for UserCache {
    type V = UserCacheView;

    closed spec fn view(&self) -> UserCacheView {
        UserCacheView {
            entries: self.cache@.map_values(|user: String| user@),
            since: self.last_refresh,
        }
    }
}

impl UserCache {
    /// An empty cache, last emptied at `now`.
    pub fn new(now: u64) -> (cache: UserCache)
        ensures
            cache@ == (UserCacheView { entries: Map::empty(), since: now }),
    {
        let cache = UserCache { cache: HashMap::new(), last_refresh: now };
        assert(cache@.entries =~= Map::empty());
        cache
    }

    /// Whether a lookup of `pid` at `now` would be answered from the cache.
    pub fn is_cached(&self, pid: u32, now: u64) -> (hit: bool)
        ensures
            hit == self@.hit(pid, now),
    {
        broadcast use vstd::std_specs::hash::group_hash_axioms;

        let age: u64 = if now >= self.last_refresh {
            now - self.last_refresh
        } else {
            0
        };
        age <= USER_TTL_MS && self.cache.contains_key(&pid)
    }

    /// Looks up the user of `pid` at time `now`.
    ///
    /// A stale cache is emptied first. A user that is cached is returned
    /// as it is. Otherwise `output`, the output of the owner query for
    /// `pid` (`None` if the query failed), decides the user, which is then
    /// cached.
    pub fn get_user(&mut self, pid: u32, now: u64, output: Option<&str>) -> (user: String)
        ensures
            user@ == old(self)@.user(pid, now, text_of(output)),
            final(self)@ == old(self)@.after_lookup(pid, now, text_of(output)),
    {
        broadcast use vstd::std_specs::hash::group_hash_axioms;

        let age: u64 = if now >= self.last_refresh {
            now - self.last_refresh
        } else {
            0
        };
        if age > USER_TTL_MS {
            self.cache.clear();
            self.last_refresh = now;
            assert(self@.entries =~= Map::empty());
        }
        assert(self@ == old(self)@.refreshed(now));
        let cached: Option<String> = match self.cache.get(&pid) {
            Some(user) => Some(user.clone()),
            None => None,
        };
        match cached {
            Some(user) => {
                assert(self@.entries =~= self@.entries.insert(pid, user@));
                user
            },
            None => {
                let user = read_user(output);
                let ghost before = self@;
                self.cache.insert(pid, user.clone());
                assert(self@.entries =~= before.entries.insert(pid, user@));
                user
            },
        }
    }
}

/// What a [`ThreadCache`] holds: the thread count per process identifier
/// and the time at which the cache was last emptied.
pub ghost struct ThreadCacheView {
    pub entries: Map<u32, usize>,
    pub since: u64,
}

impl ThreadCacheView {
    /// Whether the entries are too old at `now`.
    pub open spec fn stale(self, now: u64) -> bool {
        elapsed(self.since, now) > THREAD_TTL_MS
    }

    /// The cache as a lookup at `now` finds it: emptied if it was stale.
    pub open spec fn refreshed(self, now: u64) -> ThreadCacheView {
        if self.stale(now) {
            ThreadCacheView { entries: Map::empty(), since: now }
        } else {
            self
        }
    }

    /// Whether a lookup of `pid` at `now` is answered from the cache.
    pub open spec fn hit(self, pid: u32, now: u64) -> bool {
        self.refreshed(now).entries.contains_key(pid)
    }

    /// The count that a lookup of `pid` at `now` returns, where `output`
    /// is the output of the thread query that a miss needs.
    pub open spec fn threads(self, pid: u32, now: u64, output: Option<Seq<char>>) -> Option<
        usize,
    > {
        if self.hit(pid, now) {
            Some(self.refreshed(now).entries[pid])
        } else {
            thread_count(output)
        }
    }

    /// The cache after that lookup: a count that was found is held, a
    /// failure is not remembered.
    pub open spec fn after_lookup(
        self,
        pid: u32,
        now: u64,
        output: Option<Seq<char>>,
    ) -> ThreadCacheView {
        match self.threads(pid, now, output) {
            Some(count) => ThreadCacheView {
                entries: self.refreshed(now).entries.insert(pid, count),
                since: self.refreshed(now).since,
            },
            None => self.refreshed(now),
        }
    }
}

/// Remembers the thread count per process identifier.
pub struct ThreadCache {
    cache: HashMap<u32, usize>,
    last_refresh: u64,
}

impl View for ThreadCache {
    type V = ThreadCacheView;

    closed spec fn view(&self) -> ThreadCacheView {
        ThreadCacheView { entries: self.cache@, since: self.last_refresh }
    }
}

impl ThreadCache {
    /// An empty cache, last emptied at `now`.
    pub fn new(now: u64) -> (cache: ThreadCache)
        ensures
            cache@ == (ThreadCacheView { entries: Map::empty(), since: now }),
    {
        ThreadCache { cache: HashMap::new(), last_refresh: now }
    }

    /// Whether a lookup of `pid` at `now` would be answered from the cache.
    pub fn is_cached(&self, pid: u32, now: u64) -> (hit: bool)
        ensures
            hit == self@.hit(pid, now),
    {
        broadcast use vstd::std_specs::hash::group_hash_axioms;

        let age: u64 = if now >= self.last_refresh {
            now - self.last_refresh
        } else {
            0
        };
        age <= THREAD_TTL_MS && self.cache.contains_key(&pid)
    }

    /// Looks up the thread count of `pid` at time `now`.
    ///
    /// A stale cache is emptied first. A count that is cached is returned.
    /// Otherwise `output`, the output of the thread query for `pid` (`None`
    /// if the query failed), decides the count; a count that was found is
    /// cached, a failure is not.
    pub fn get_thread_count(&mut self, pid: u32, now: u64, output: Option<&str>) -> (count: Option<
        usize,
    >)
        ensures
            count == old(self)@.threads(pid, now, text_of(output)),
            final(self)@ == old(self)@.after_lookup(pid, now, text_of(output)),
    {
        broadcast use vstd::std_specs::hash::group_hash_axioms;

        let age: u64 = if now >= self.last_refresh {
            now - self.last_refresh
        } else {
            0
        };
        if age > THREAD_TTL_MS {
            self.cache.clear();
            self.last_refresh = now;
        }
        let cached: Option<usize> = match self.cache.get(&pid) {
            Some(count) => Some(*count),
            None => None,
        };
        match cached {
            Some(count) => {
                assert(self@.entries =~= self@.entries.insert(pid, count));
                Some(count)
            },
            None => {
                let count = read_thread_count(output);
                if let Some(n) = count {
                    self.cache.insert(pid, n);
                }
                count
            },
        }
    }
}

} // verus!
