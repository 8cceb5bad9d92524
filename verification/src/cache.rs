use vstd::prelude::*;
use crate::text::str_eq;

verus! {

/// The attempt counter grown by one, capped at its maximum.
pub open spec fn sat_inc(c: u64) -> u64 {
    if c == u64::MAX {
        c
    } else {
        (c + 1) as u64
    }
}

/// More than `ttl` ticks have passed since `created` at instant `now`.
pub open spec fn expired_at(created: u64, ttl: u64, now: u64) -> bool {
    now > created && now - created > ttl
}

/// More than `idle` ticks have passed since `last` at instant `now`.
pub open spec fn idle_at(last: u64, idle: u64, now: u64) -> bool {
    now > last && now - last > idle
}

/// One cached value with its bookkeeping. Instants are caller-supplied
/// monotonic milliseconds.
#[derive(Debug)]
pub struct CacheItem<T> {
    pub data: T,
    pub created_at: u64,
    pub last_accessed: u64,
    pub access_count: u64,
}

impl<T> CacheItem<T> {
    /// A fresh item created and first accessed at `now`.
    pub fn new(data: T, now: u64) -> (r: CacheItem<T>)
        ensures
            r.data == data,
            r.created_at == now,
            r.last_accessed == now,
            r.access_count == 1,
    {
        CacheItem { data, created_at: now, last_accessed: now, access_count: 1 }
    }

    /// Marks one access at `now` and hands the value out.
    pub fn access(&mut self, now: u64) -> (r: &T)
        ensures
            final(self).data == old(self).data,
            final(self).created_at == old(self).created_at,
            final(self).last_accessed == now,
            final(self).access_count == sat_inc(old(self).access_count),
            *r == final(self).data,
    {
        self.last_accessed = now;
        self.access_count = self.access_count.saturating_add(1);
        &self.data
    }

    /// Whether the item has outlived its time-to-live at instant `now`.
    pub fn is_expired(&self, ttl: u64, now: u64) -> (r: bool)
        ensures
            r == expired_at(self.created_at, ttl, now),
    {
        now > self.created_at && now - self.created_at > ttl
    }

    /// Whether the item has sat unused longer than the idle timeout.
    pub fn should_evict(&self, idle_timeout: u64, now: u64) -> (r: bool)
        ensures
            r == idle_at(self.last_accessed, idle_timeout, now),
    {
        now > self.last_accessed && now - self.last_accessed > idle_timeout
    }
}

/// Item `a`'s bookkeeping orders at or before `b`'s: less recently
/// accessed, or equally recent and not more often used.
pub open spec fn lru_le<V>(a: CacheItem<V>, b: CacheItem<V>) -> bool {
    a.last_accessed < b.last_accessed || (a.last_accessed == b.last_accessed && a.access_count
        <= b.access_count)
}

/// The table `post` is `pre` with a fresh item (first accessed at `now`,
/// use count one) stored under `key`: replaced in place when the key was
/// present, else appended; every other entry survives unchanged.
pub open spec fn upserted_fresh<V>(
    pre: Seq<(String, CacheItem<V>)>,
    post: Seq<(String, CacheItem<V>)>,
    key: String,
    value: V,
    now: u64,
) -> bool {
    let item = (CacheItem { data: value, created_at: now, last_accessed: now, access_count: 1 });
    ||| exists|k: int|
        0 <= k < pre.len() && (#[trigger] pre[k]).0@ == key@ && post == pre.update(k, (key, item))
    ||| (forall|k: int| 0 <= k < pre.len() ==> (#[trigger] pre[k]).0@ != key@) && post == pre.push(
        (key, item),
    )
}

/// A bounded cache keyed by strings: entries expire after a time-to-live,
/// idle entries can be swept, and when full the least recently used entry
/// makes room.
pub struct LRUCache<V> {
    pub entries: Vec<(String, CacheItem<V>)>,
    pub max_size: usize,
    pub ttl: u64,
    pub idle_timeout: u64,
}

impl<V> LRUCache<V> {
    /// Keys are unique.
    pub open spec fn wf(self) -> bool {
        forall|i: int, j: int|
            0 <= i < j < self.entries@.len() ==> self.entries@[i].0@ != self.entries@[j].0@
    }

    /// An empty cache with the given capacity, time-to-live, and idle
    /// timeout.
    pub fn new(max_size: usize, ttl: u64, idle_timeout: u64) -> (r: LRUCache<V>)
        ensures
            r.wf(),
            r.entries@.len() == 0,
            r.max_size == max_size,
            r.ttl == ttl,
            r.idle_timeout == idle_timeout,
    {
        LRUCache { entries: Vec::new(), max_size, ttl, idle_timeout }
    }

    /// The index of the entry with this key, if any.
    fn find(&self, key: &str) -> (r: Option<usize>)
        ensures
            match r {
                Some(i) => 0 <= i < self.entries@.len() && self.entries@[i as int].0@ == key@,
                None => forall|k: int|
                    0 <= k < self.entries@.len() ==> (#[trigger] self.entries@[k]).0@ != key@,
            },
    {
        let n: usize = self.entries.len();
        let mut i: usize = 0;
        while i < n
            invariant
                n == self.entries@.len(),
                0 <= i <= n,
                forall|k: int| 0 <= k < i ==> (#[trigger] self.entries@[k]).0@ != key@,
            decreases n - i,
        {
            if str_eq(self.entries[i].0.as_str(), key) {
                return Some(i);
            }
            i += 1;
        }
        None
    }

    /// Looks the key up at instant `now`. An entry past its time-to-live is
    /// dropped and reported absent; a live entry is marked accessed and its
    /// value handed out.
    pub fn get(&mut self, key: &str, now: u64) -> (r: Option<&V>)
        requires
            old(self).wf(),
        ensures
            final(self).wf(),
            final(self).max_size == old(self).max_size,
            final(self).ttl == old(self).ttl,
            final(self).idle_timeout == old(self).idle_timeout,
            (forall|k: int|
                0 <= k < old(self).entries@.len() ==> (#[trigger] old(self).entries@[k]).0@
                    != key@) ==> r is None && *final(self) == *old(self),
            forall|k: int|
                0 <= k < old(self).entries@.len() && (#[trigger] old(self).entries@[k]).0@ == key@
                    ==> if expired_at(old(self).entries@[k].1.created_at, old(self).ttl, now) {
                    r is None && final(self).entries@ == old(self).entries@.remove(k)
                } else {
                    (r matches Some(v) && *v == old(self).entries@[k].1.data) && final(self).entries@ == old(self).entries@.update(
                        k,
                        (
                            old(self).entries@[k].0,
                            (CacheItem {
                                data: old(self).entries@[k].1.data,
                                created_at: old(self).entries@[k].1.created_at,
                                last_accessed: now,
                                access_count: sat_inc(old(self).entries@[k].1.access_count),
                            }),
                        ),
                    )
                },
    {
        let ghost pre = self.entries@;
        match self.find(key) {
            None => None,
            Some(i) => {
                let expired = self.entries[i].1.is_expired(self.ttl, now);
                if expired {
                    self.entries.remove(i);
                    proof {
                        assert forall|a: int, b: int|
                            0 <= a < b < self.entries@.len() implies (#[trigger] self.entries@[
                            a
                        ]).0@ != (#[trigger] self.entries@[b]).0@ by {
                            let a0 = if a < i as int {
                                a
                            } else {
                                a + 1
                            };
                            let b0 = if b < i as int {
                                b
                            } else {
                                b + 1
                            };
                            assert(self.entries@[a] == pre[a0]);
                            assert(self.entries@[b] == pre[b0]);
                        }
                        assert forall|k: int|
                            0 <= k < pre.len() && (#[trigger] pre[k]).0@ == key@ implies k
                            == i as int by {
                            if k != i as int {
                                assert(pre[k].0@ != pre[i as int].0@);
                            }
                        }
                    }
                    None
                } else {
                    let mut e = self.entries.remove(i);
                    let _ = e.1.access(now);
                    self.entries.insert(i, e);
                    proof {
                        assert(self.entries@ =~= pre.update(i as int, self.entries@[i as int]));
                        assert forall|a: int, b: int|
                            0 <= a < b < self.entries@.len() implies (#[trigger] self.entries@[
                            a
                        ]).0@ != (#[trigger] self.entries@[b]).0@ by {
                            assert(self.entries@[a].0 == pre[a].0);
                            assert(self.entries@[b].0 == pre[b].0);
                        }
                        assert forall|k: int|
                            0 <= k < pre.len() && (#[trigger] pre[k]).0@ == key@ implies k
                            == i as int by {
                            if k != i as int {
                                assert(pre[k].0@ != pre[i as int].0@);
                            }
                        }
                    }
                    Some(&self.entries[i].1.data)
                }
            },
        }
    }

    /// Removes the least-recently-used entry to make room. The dropped
    /// entry orders at or before every other by last access and use count.
    fn evict_lru(&mut self)
        requires
            old(self).wf(),
            old(self).entries@.len() > 0,
        ensures
            final(self).wf(),
            final(self).max_size == old(self).max_size,
            final(self).ttl == old(self).ttl,
            final(self).idle_timeout == old(self).idle_timeout,
            exists|m: int|
                0 <= m < old(self).entries@.len() && (forall|j: int|
                    0 <= j < old(self).entries@.len() ==> lru_le(
                        old(self).entries@[m].1,
                        (#[trigger] old(self).entries@[j]).1,
                    )) && final(self).entries@ == old(self).entries@.remove(m),
    {
        let ghost pre = self.entries@;
        let n: usize = self.entries.len();
        let mut best: usize = 0;
        let mut i: usize = 1;
        while i < n
            invariant
                n == self.entries@.len(),
                self.entries@ == pre,
                n > 0,
                0 <= best < i <= n,
                forall|j: int| 0 <= j < i ==> lru_le(pre[best as int].1, (#[trigger] pre[j]).1),
            decreases n - i,
        {
            let better = self.entries[i].1.last_accessed < self.entries[best].1.last_accessed || (
            self.entries[i].1.last_accessed == self.entries[best].1.last_accessed
                && self.entries[i].1.access_count < self.entries[best].1.access_count);
            if better {
                best = i;
            }
            i += 1;
        }
        self.entries.remove(best);
        proof {
            assert forall|a: int, b: int|
                0 <= a < b < self.entries@.len() implies (#[trigger] self.entries@[a]).0@ != (
            #[trigger] self.entries@[b]).0@ by {
                let a0 = if a < best as int {
                    a
                } else {
                    a + 1
                };
                let b0 = if b < best as int {
                    b
                } else {
                    b + 1
                };
                assert(self.entries@[a] == pre[a0]);
                assert(self.entries@[b] == pre[b0]);
            }
        }
    }

    /// Stores the value under the key at instant `now` as a fresh item. A
    /// full cache first evicts one entry minimizing (last accessed, use
    /// count); every other entry survives unchanged, and a cache that held
    /// at most its capacity still does afterwards.
    pub fn put(&mut self, key: String, value: V, now: u64)
        requires
            old(self).wf(),
        ensures
            final(self).wf(),
            final(self).max_size == old(self).max_size,
            final(self).ttl == old(self).ttl,
            final(self).idle_timeout == old(self).idle_timeout,
            (old(self).entries@.len() < old(self).max_size || old(self).entries@.len() == 0)
                ==> upserted_fresh(old(self).entries@, final(self).entries@, key, value, now),
            (old(self).entries@.len() >= old(self).max_size && old(self).entries@.len() > 0)
                ==> exists|m: int|
                0 <= m < old(self).entries@.len() && (forall|j: int|
                    0 <= j < old(self).entries@.len() ==> lru_le(
                        old(self).entries@[m].1,
                        (#[trigger] old(self).entries@[j]).1,
                    )) && upserted_fresh(
                    old(self).entries@.remove(m),
                    final(self).entries@,
                    key,
                    value,
                    now,
                ),
            old(self).entries@.len() <= old(self).max_size && old(self).max_size >= 1 ==> final(self).entries@.len() <= final(self).max_size,
    {
        if self.entries.len() >= self.max_size && self.entries.len() > 0 {
            self.evict_lru();
        }
        let item = CacheItem::new(value, now);
        let ghost stored = item;
        let ghost mid = self.entries@;
        match self.find(key.as_str()) {
            Some(i) => {
                self.entries.remove(i);
                self.entries.insert(i, (key, item));
                proof {
                    assert(self.entries@ =~= mid.update(i as int, self.entries@[i as int]));
                    assert(self.entries@[i as int].0@ == key@);
                    assert(upserted_fresh(mid, self.entries@, key, value, now)) by {
                        assert(stored == (CacheItem {
                            data: value,
                            created_at: now,
                            last_accessed: now,
                            access_count: 1,
                        }));
                        assert(self.entries@ == mid.update(i as int, (key, stored)));
                    }
                    assert forall|a: int, b: int|
                        0 <= a < b < self.entries@.len() implies (#[trigger] self.entries@[a]).0@
                        != (#[trigger] self.entries@[b]).0@ by {
                        assert(self.entries@[a].0@ == mid[a].0@);
                        assert(self.entries@[b].0@ == mid[b].0@);
                    }
                }
            },
            None => {
                self.entries.push((key, item));
                proof {
                    assert(self.entries@.last().0@ == key@);
                    assert(upserted_fresh(mid, self.entries@, key, value, now)) by {
                        assert(stored == (CacheItem {
                            data: value,
                            created_at: now,
                            last_accessed: now,
                            access_count: 1,
                        }));
                        assert(self.entries@ == mid.push((key, stored)));
                    }
                    assert forall|a: int, b: int|
                        0 <= a < b < self.entries@.len() implies (#[trigger] self.entries@[a]).0@
                        != (#[trigger] self.entries@[b]).0@ by {
                        if b < mid.len() {
                            assert(self.entries@[a] == mid[a]);
                            assert(self.entries@[b] == mid[b]);
                        } else {
                            assert(self.entries@[a] == mid[a]);
                            assert(mid[a].0@ != key@);
                        }
                    }
                }
            },
        }
    }

    /// Drops the entry with this key, if one exists.
    pub fn remove(&mut self, key: &str)
        requires
            old(self).wf(),
        ensures
            final(self).wf(),
            final(self).max_size == old(self).max_size,
            final(self).ttl == old(self).ttl,
            final(self).idle_timeout == old(self).idle_timeout,
            (forall|k: int|
                0 <= k < old(self).entries@.len() ==> (#[trigger] old(self).entries@[k]).0@
                    != key@) ==> *final(self) == *old(self),
            forall|k: int|
                0 <= k < old(self).entries@.len() && (#[trigger] old(self).entries@[k]).0@ == key@
                    ==> final(self).entries@ == old(self).entries@.remove(k),
    {
        let ghost pre = self.entries@;
        match self.find(key) {
            None => {
            },
            Some(i) => {
                self.entries.remove(i);
                proof {
                    assert forall|a: int, b: int|
                        0 <= a < b < self.entries@.len() implies (#[trigger] self.entries@[a]).0@
                        != (#[trigger] self.entries@[b]).0@ by {
                        let a0 = if a < i as int {
                            a
                        } else {
                            a + 1
                        };
                        let b0 = if b < i as int {
                            b
                        } else {
                            b + 1
                        };
                        assert(self.entries@[a] == pre[a0]);
                        assert(self.entries@[b] == pre[b0]);
                    }
                    assert forall|k: int|
                        0 <= k < pre.len() && (#[trigger] pre[k]).0@ == key@ implies k
                        == i as int by {
                        if k != i as int {
                            assert(pre[k].0@ != pre[i as int].0@);
                        }
                    }
                }
            },
        }
    }

    /// Empties the cache.
    pub fn clear(&mut self)
        ensures
            final(self).wf(),
            final(self).entries@.len() == 0,
            final(self).max_size == old(self).max_size,
            final(self).ttl == old(self).ttl,
            final(self).idle_timeout == old(self).idle_timeout,
    {
        self.entries.clear();
    }

    /// How many entries the cache holds.
    pub fn size(&self) -> (r: usize)
        ensures
            r == self.entries@.len(),
    {
        self.entries.len()
    }

    /// Sweeps out every entry past its time-to-live or idle longer than the
    /// idle timeout, at instant `now`.
    pub fn cleanup_expired(&mut self, now: u64)
        requires
            old(self).wf(),
        ensures
            final(self).wf(),
            final(self).max_size == old(self).max_size,
            final(self).ttl == old(self).ttl,
            final(self).idle_timeout == old(self).idle_timeout,
            final(self).entries@ == old(self).entries@.filter(
                |e: (String, CacheItem<V>)| !expired_at(e.1.created_at, old(self).ttl, now)
                    && !idle_at(e.1.last_accessed, old(self).idle_timeout, now),
            ),
    {
        let ghost pre = self.entries@;
        let ghost ttl0 = self.ttl;
        let ghost idle0 = self.idle_timeout;
        let ghost pred = |e: (String, CacheItem<V>)| !expired_at(e.1.created_at, ttl0, now)
            && !idle_at(e.1.last_accessed, idle0, now);
        let n: usize = self.entries.len();
        let mut kept: Vec<(String, CacheItem<V>)> = Vec::new();
        let ghost mut src: Seq<int> = Seq::empty();
        let mut k: usize = 0;
        while k < n
            invariant
                n == pre.len(),
                self.entries@ == pre.skip(k as int),
                self.max_size == old(self).max_size,
                self.ttl == ttl0,
                self.idle_timeout == idle0,
                ttl0 == old(self).ttl,
                idle0 == old(self).idle_timeout,
                pred == (|e: (String, CacheItem<V>)| !expired_at(e.1.created_at, ttl0, now)
                    && !idle_at(e.1.last_accessed, idle0, now)),
                0 <= k <= n,
                kept@ == pre.take(k as int).filter(pred),
                src.len() == kept@.len(),
                forall|a: int|
                    #![trigger src[a]]
                    0 <= a < kept@.len() ==> 0 <= src[a] < n && src[a] < k && kept@[a] == pre[src[
                        a
                    ]],
                forall|a: int, b: int| 0 <= a < b < kept@.len() ==> src[a] < src[b],
            decreases n - k,
        {
            proof {
                reveal(Seq::filter);
                assert(pre.take(k + 1).drop_last() =~= pre.take(k as int));
                assert(pre.take(k + 1).last() == pre[k as int]);
                assert(pre.skip(k as int)[0] == pre[k as int]);
            }
            let e = self.entries.remove(0);
            proof {
                assert(self.entries@ =~= pre.skip(k + 1));
            }
            let keep = !e.1.is_expired(self.ttl, now) && !e.1.should_evict(
                self.idle_timeout,
                now,
            );
            if keep {
                kept.push(e);
                proof {
                    assert(kept@.last() == pre[k as int]);
                    src = src.push(k as int);
                }
            }
            k += 1;
        }
        proof {
            assert(pre.take(n as int) =~= pre);
        }
        self.entries = kept;
        proof {
            assert forall|a: int, b: int|
                0 <= a < b < self.entries@.len() implies (#[trigger] self.entries@[a]).0@ != (
            #[trigger] self.entries@[b]).0@ by {
                assert(self.entries@[a] == pre[src[a]]);
                assert(self.entries@[b] == pre[src[b]]);
            }
        }
    }
}

} // verus!
