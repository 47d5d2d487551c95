use vstd::prelude::*;

use crate::event::same_key;

verus! {

/// Display metadata of an author.
pub struct ProfileMetadata {
    pub display_name: Option<String>,
    pub name: Option<String>,
}

fn clone_opt_string(s: &Option<String>) -> (r: Option<String>)
    ensures
        r == *s,
{
    match s {
        Some(v) => Some(v.clone()),
        None => None,
    }
}

impl ProfileMetadata {
    pub fn duplicate(&self) -> (r: ProfileMetadata)
        ensures
            r == *self,
    {
        ProfileMetadata { display_name: clone_opt_string(&self.display_name), name: clone_opt_string(&self.name) }
    }
}

pub struct CacheEntry {
    pub author: Vec<u8>,
    pub metadata: ProfileMetadata,
    pub fetched_at: u64,
}

/// Whether an entry fetched at `fetched_at` is still served at `now`.
pub open spec fn is_fresh(fetched_at: int, now: int, ttl: int) -> bool {
    now < fetched_at + ttl
}

pub open spec fn has_author(s: Seq<CacheEntry>, k: Seq<u8>) -> bool {
    exists|i: int| 0 <= i < s.len() && (#[trigger] s[i]).author@ == k
}

pub open spec fn index_of(s: Seq<CacheEntry>, k: Seq<u8>) -> int {
    choose|i: int| 0 <= i < s.len() && (#[trigger] s[i]).author@ == k
}

pub open spec fn authors_unique(s: Seq<CacheEntry>) -> bool {
    forall|i: int, j: int| 0 <= i < s.len() && 0 <= j < s.len() && i != j ==> (#[trigger] s[i]).author@ != (#[trigger] s[j]).author@
}

/// The author-to-(metadata, fetch time) map that a sequence of entries stands for.
pub open spec fn entries_map(s: Seq<CacheEntry>) -> Map<Seq<u8>, (ProfileMetadata, u64)> {
    Map::new(|k: Seq<u8>| has_author(s, k), |k: Seq<u8>| (s[index_of(s, k)].metadata, s[index_of(s, k)].fetched_at))
}

/// The entries of `m` that are still fresh at `now`.
pub open spec fn purged(m: Map<Seq<u8>, (ProfileMetadata, u64)>, now: int, ttl: int) -> Map<Seq<u8>, (ProfileMetadata, u64)> {
    Map::new(|k: Seq<u8>| m.contains_key(k) && is_fresh(m[k].1 as int, now, ttl), |k: Seq<u8>| m[k])
}

/// What a lookup of `k` at `now` serves from `m`.
pub open spec fn served(m: Map<Seq<u8>, (ProfileMetadata, u64)>, k: Seq<u8>, now: int, ttl: int) -> Option<ProfileMetadata> {
    if m.contains_key(k) && is_fresh(m[k].1 as int, now, ttl) {
        Some(m[k].0)
    } else {
        None
    }
}

proof fn lemma_index_of(s: Seq<CacheEntry>, i: int)
    requires
        authors_unique(s),
        0 <= i < s.len(),
    ensures
        has_author(s, s[i].author@),
        index_of(s, s[i].author@) == i,
{
    assert(has_author(s, s[i].author@));
}

/// Metadata per author, each entry served only while it is younger than the time-to-live.
pub struct Cache {
    entries: Vec<CacheEntry>,
    ttl: u64,
}

impl Cache {
    pub closed spec fn well_formed(&self) -> bool {
        authors_unique(self.entries@)
    }

    pub closed spec fn view(&self) -> Map<Seq<u8>, (ProfileMetadata, u64)> {
        entries_map(self.entries@)
    }

    pub closed spec fn ttl_spec(&self) -> u64 {
        self.ttl
    }

    /// An empty cache whose entries live `ttl` seconds.
    pub fn new(ttl: u64) -> (r: Self)
        ensures
            r.well_formed(),
            r@ == Map::<Seq<u8>, (ProfileMetadata, u64)>::empty(),
            r.ttl_spec() == ttl,
    {
        let r = Cache { entries: Vec::new(), ttl };
        assert(r@ =~= Map::<Seq<u8>, (ProfileMetadata, u64)>::empty());
        r
    }

    /// Removes every entry that is no longer fresh at `now`.
    pub fn purge_old(&mut self, now: u64)
        requires
            old(self).well_formed(),
        ensures
            final(self).well_formed(),
            final(self).ttl_spec() == old(self).ttl_spec(),
            final(self)@ == purged(old(self)@, now as int, old(self).ttl_spec() as int),
    {
        let ghost old_s = self.entries@;
        let ghost len = old_s.len() as int;
        let ttl = self.ttl;
        let mut kept: Vec<CacheEntry> = Vec::new();
        let ghost mut src: Seq<int> = Seq::empty();
        while self.entries.len() > 0
            invariant
                self.ttl == ttl,
                authors_unique(old_s),
                self.entries@ == old_s.take(self.entries@.len() as int),
                self.entries@.len() <= len,
                len == old_s.len(),
                src.len() == kept@.len(),
                forall|i: int| 0 <= i < src.len() ==> self.entries@.len() <= #[trigger] src[i] < len
                    && kept@[i] == old_s[src[i]] && is_fresh(old_s[src[i]].fetched_at as int, now as int, ttl as int),
                forall|i: int, i2: int| 0 <= i < i2 < src.len() ==> #[trigger] src[i] > #[trigger] src[i2],
                forall|j: int| self.entries@.len() <= j < len && is_fresh(#[trigger] old_s[j].fetched_at as int, now as int, ttl as int)
                    ==> exists|i: int| 0 <= i < src.len() && src[i] == j,
            decreases self.entries@.len(),
        {
            let ghost n = self.entries@.len() as int;
            let e = self.entries.pop().unwrap();
            assert(old_s.take(n - 1) == old_s.take(n).drop_last());
            assert(e == old_s[n - 1]);
            let fresh = if now >= e.fetched_at { now - e.fetched_at < ttl } else { true };
            assert(fresh == is_fresh(old_s[n - 1].fetched_at as int, now as int, ttl as int));
            let ghost src0 = src;
            if fresh {
                kept.push(e);
                proof {
                    src = src.push(n - 1);
                    assert(src[src.len() - 1] == n - 1);
                }
            }
            proof {
                assert forall|j: int| n - 1 <= j < len && is_fresh(#[trigger] old_s[j].fetched_at as int, now as int, ttl as int)
                    implies exists|i: int| 0 <= i < src.len() && src[i] == j by {
                    if j == n - 1 {
                        assert(src[src.len() - 1] == j);
                    } else {
                        let i0 = choose|i: int| 0 <= i < src0.len() && src0[i] == j;
                        assert(src[i0] == j);
                    }
                }
            }
        }
        proof {
            let ks = kept@;
            assert forall|i: int, i2: int| 0 <= i < ks.len() && 0 <= i2 < ks.len() && i != i2 implies
                (#[trigger] ks[i]).author@ != (#[trigger] ks[i2]).author@ by {
                assert(src[i] != src[i2]);
            }
            assert(authors_unique(ks));
            let m_old = entries_map(old_s);
            let target = purged(m_old, now as int, ttl as int);
            assert forall|k: Seq<u8>| #[trigger] target.contains_key(k) implies entries_map(ks).contains_key(k)
                && entries_map(ks)[k] == target[k] by {
                let j = index_of(old_s, k);
                lemma_index_of(old_s, j);
                let i = choose|i: int| 0 <= i < src.len() && src[i] == j;
                lemma_index_of(ks, i);
            }
            assert forall|k: Seq<u8>| #[trigger] entries_map(ks).contains_key(k) implies target.contains_key(k) by {
                let i = index_of(ks, k);
                lemma_index_of(old_s, src[i]);
            }
            assert(entries_map(ks) =~= target);
        }
        self.entries = kept;
    }

    /// The metadata cached for `key`, if it is still fresh at `now`; stale entries are purged first.
    pub fn get(&mut self, key: &Vec<u8>, now: u64) -> (r: Option<ProfileMetadata>)
        requires
            old(self).well_formed(),
        ensures
            final(self).well_formed(),
            final(self).ttl_spec() == old(self).ttl_spec(),
            final(self)@ == purged(old(self)@, now as int, old(self).ttl_spec() as int),
            r == served(old(self)@, key@, now as int, old(self).ttl_spec() as int),
    {
        self.purge_old(now);
        proof {
            let m = purged(old(self)@, now as int, old(self).ttl_spec() as int);
            assert(m.contains_key(key@) == (old(self)@.contains_key(key@)
                && is_fresh(old(self)@[key@].1 as int, now as int, old(self).ttl_spec() as int)));
        }
        match self.position(key) {
            Some(i) => {
                proof {
                    lemma_index_of(self.entries@, i as int);
                    assert(self@.contains_key(key@));
                    assert(self@[key@].0 == self.entries@[i as int].metadata);
                }
                let md = self.entries[i].metadata.duplicate();
                Some(md)
            },
            None => {
                assert(!self@.contains_key(key@));
                None
            },
        }
    }

    fn position(&self, key: &Vec<u8>) -> (r: Option<usize>)
        ensures
            r matches Some(i) ==> i < self.entries@.len() && self.entries@[i as int].author@ == key@,
            r is None ==> !has_author(self.entries@, key@),
    {
        let mut i: usize = 0;
        while i < self.entries.len()
            invariant
                i <= self.entries@.len(),
                forall|j: int| 0 <= j < i ==> (#[trigger] self.entries@[j]).author@ != key@,
            decreases self.entries@.len() - i,
        {
            if same_key(&self.entries[i].author, key) {
                return Some(i);
            }
            i = i + 1;
        }
        None
    }

    /// Stores `value` for `key`, fetched at `now`, after purging stale entries; any earlier
    /// entry for `key` is overwritten.
    pub fn insert(&mut self, key: Vec<u8>, value: ProfileMetadata, now: u64)
        requires
            old(self).well_formed(),
        ensures
            final(self).well_formed(),
            final(self).ttl_spec() == old(self).ttl_spec(),
            final(self)@ == purged(old(self)@, now as int, old(self).ttl_spec() as int).insert(key@, (value, now)),
    {
        self.purge_old(now);
        let ghost before = self.entries@;
        let ghost kv = key@;
        let entry = CacheEntry { author: key, metadata: value, fetched_at: now };
        match self.position(&entry.author) {
            Some(i) => {
                self.entries.set(i, entry);
                proof {
                    let s = self.entries@;
                    assert forall|a: int, b: int| 0 <= a < s.len() && 0 <= b < s.len() && a != b implies
                        (#[trigger] s[a]).author@ != (#[trigger] s[b]).author@ by {
                        if a != i && b != i {
                            assert(s[a] == before[a] && s[b] == before[b]);
                        } else if a == i {
                            assert(before[b].author@ != before[a].author@);
                        } else {
                            assert(before[a].author@ != before[b].author@);
                        }
                    }
                    self.lemma_view_after_write(before, i as int, kv);
                }
            },
            None => {
                self.entries.push(entry);
                proof {
                    let s = self.entries@;
                    assert(s.drop_last() == before);
                    self.lemma_view_after_write(before, s.len() - 1, kv);
                }
            },
        }
    }

    proof fn lemma_view_after_write(&self, before: Seq<CacheEntry>, i: int, kv: Seq<u8>)
        requires
            authors_unique(before),
            authors_unique(self.entries@),
            0 <= i < self.entries@.len(),
            self.entries@[i].author@ == kv,
            forall|j: int| 0 <= j < self.entries@.len() && j != i ==> #[trigger] self.entries@[j] == before[j],
            self.entries@.len() == before.len() || (self.entries@.len() == before.len() + 1 && i == before.len()),
            i < before.len() ==> before[i].author@ == kv,
        ensures
            self@ == entries_map(before).insert(kv, (self.entries@[i].metadata, self.entries@[i].fetched_at)),
    {
        let s = self.entries@;
        let target = entries_map(before).insert(kv, (s[i].metadata, s[i].fetched_at));
        lemma_index_of(s, i);
        assert forall|k: Seq<u8>| #[trigger] target.contains_key(k) implies entries_map(s).contains_key(k)
            && entries_map(s)[k] == target[k] by {
            if k != kv {
                let j = index_of(before, k);
                lemma_index_of(before, j);
                assert(s[j] == before[j]);
                lemma_index_of(s, j);
            }
        }
        assert forall|k: Seq<u8>| #[trigger] entries_map(s).contains_key(k) implies target.contains_key(k) by {
            let j = index_of(s, k);
            lemma_index_of(s, j);
            if j != i {
                assert(s[j] == before[j]);
                lemma_index_of(before, j);
            }
        }
        assert(entries_map(s) =~= target);
    }
}

/// A stored entry is served exactly until its deadline: a lookup at `now` of an
/// entry inserted at `t` returns the inserted metadata when `now < t + ttl` and
/// nothing otherwise.
pub proof fn lemma_served_until_deadline(
    m: Map<Seq<u8>, (ProfileMetadata, u64)>,
    k: Seq<u8>,
    v: ProfileMetadata,
    t: u64,
    ttl: u64,
    now: int,
)
    ensures
        served(purged(m, t as int, ttl as int).insert(k, (v, t)), k, now, ttl as int)
            == (if now < t + ttl { Some(v) } else { None::<ProfileMetadata> }),
{
}

/// Purging at an earlier time never changes what a later lookup serves, so
/// lookups made in between do not shorten an entry's life.
pub proof fn lemma_purge_then_served(
    m: Map<Seq<u8>, (ProfileMetadata, u64)>,
    k: Seq<u8>,
    q: int,
    now: int,
    ttl: int,
)
    requires
        q <= now,
    ensures
        served(purged(m, q, ttl), k, now, ttl) == served(m, k, now, ttl),
{
}

/// Two lookups of one author within the entry's lifetime, with no insertion in
/// between, return the same metadata.
pub proof fn lemma_lookups_stable(
    m: Map<Seq<u8>, (ProfileMetadata, u64)>,
    k: Seq<u8>,
    t1: int,
    t2: int,
    ttl: int,
)
    requires
        t1 <= t2,
        m.contains_key(k),
        is_fresh(m[k].1 as int, t2, ttl),
    ensures
        served(m, k, t1, ttl) == Some(m[k].0),
        served(purged(m, t1, ttl), k, t2, ttl) == Some(m[k].0),
{
}

} // verus!
