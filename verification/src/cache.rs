//! The in-memory image cache: two least-recently-used tables (full images and
//! thumbnails, keyed by the paths' keys, so that paths with the same
//! components meet one entry) and the sets of keys whose decoding is under
//! way. The tables record each image's width and height; the pixel data
//! lives with the caller, who learns from each call which entries left.
use vstd::prelude::*;
use vstd::hash_set::StringHashSet;
use lru::LruCache;
use std::num::NonZeroUsize;
use crate::paths::{path_key, path_key_of};

verus! {

#[verifier::external_type_specification]
#[verifier::external_body]
#[verifier::reject_recursive_types(K)]
#[verifier::reject_recursive_types(V)]
#[verifier::reject_recursive_types(S)]
pub struct ExLruCache<K, V, S>(LruCache<K, V, S>);

#[verifier::external_type_specification]
#[verifier::external_body]
pub struct ExDefaultHasher(lru::DefaultHasher);

/// Width and height of a cached image.
pub type Dims = (u32, u32);

/// An entry of a table: the path as text and the image's dimensions.
pub type Entry = (Seq<char>, Dims);

/// The entries of an LRU table, least recently used first.
pub uninterp spec fn lru_entries(c: LruCache<String, (u32, u32)>) -> Seq<(Seq<char>, (u32, u32))>;

/// The capacity an LRU table was made (or last resized) with.
pub uninterp spec fn lru_capacity(c: LruCache<String, (u32, u32)>) -> nat;

/// The position of key `k` among `e`, or -1.
pub open spec fn key_pos(e: Seq<Entry>, k: Seq<char>) -> int
    decreases e.len(),
{
    if e.len() == 0 {
        -1
    } else if e.last().0 == k {
        e.len() - 1
    } else {
        key_pos(e.drop_last(), k)
    }
}

/// No key occurs twice.
pub open spec fn keys_distinct(e: Seq<Entry>) -> bool {
    forall|i: int, j: int| 0 <= i < j < e.len() ==> e[i].0 != e[j].0
}

/// `key_pos` finds the key if it is there and -1 otherwise.
pub proof fn lemma_key_pos(e: Seq<Entry>, k: Seq<char>)
    ensures
        -1 <= key_pos(e, k) < e.len(),
        key_pos(e, k) >= 0 ==> e[key_pos(e, k)].0 == k,
        key_pos(e, k) == -1 ==> forall|i: int| 0 <= i < e.len() ==> e[i].0 != k,
    decreases e.len(),
{
    if e.len() > 0 && e.last().0 != k {
        lemma_key_pos(e.drop_last(), k);
        assert forall|i: int| 0 <= i < e.len() && key_pos(e, k) == -1 implies e[i].0 != k by {
            if i < e.len() - 1 {
                assert(e.drop_last()[i] == e[i]);
            }
        }
    }
}

/// A table whose keys are distinct and whose size is within its capacity.
pub open spec fn lru_ok(c: LruCache<String, (u32, u32)>) -> bool {
    &&& keys_distinct(lru_entries(c))
    &&& lru_entries(c).len() <= lru_capacity(c)
    &&& lru_capacity(c) >= 1
    &&& lru_capacity(c) <= usize::MAX
}

/// The entries after `k` is looked up or stored as the most recent.
pub open spec fn moved_to_back(e: Seq<Entry>, i: int, entry: Entry) -> Seq<Entry> {
    e.remove(i).push(entry)
}

/// A new table of the given capacity (`LruCache::new`): empty.
#[verifier::external_body]
fn lru_new(cap: usize) -> (r: LruCache<String, (u32, u32)>)
    requires
        cap >= 1,
    ensures
        lru_entries(r) == Seq::<Entry>::empty(),
        lru_capacity(r) == cap,
{
    LruCache::new(NonZeroUsize::new(cap).unwrap())
}

/// `LruCache::push`: stores `v` under `k` as the most recently used entry.
/// An entry with the same key is replaced and handed back; otherwise, when
/// the table is full, the least recently used entry leaves and is handed
/// back.
#[verifier::external_body]
fn lru_push(c: &mut LruCache<String, (u32, u32)>, k: String, v: (u32, u32)) -> (r: Option<(String, (u32, u32))>)
    ensures
        lru_capacity(*final(c)) == lru_capacity(*old(c)),
        ({
            let e = lru_entries(*old(c));
            let p = key_pos(e, k@);
            if p >= 0 {
                &&& lru_entries(*final(c)) == moved_to_back(e, p, (k@, v))
                &&& r matches Some(out) && out.0@ == k@ && out.1 == e[p].1
            } else if e.len() == lru_capacity(*old(c)) {
                &&& lru_entries(*final(c)) == e.drop_first().push((k@, v))
                &&& r matches Some(out) && out.0@ == e[0].0 && out.1 == e[0].1
            } else {
                &&& lru_entries(*final(c)) == e.push((k@, v))
                &&& r is None
            }
        }),
{
    c.push(k, v)
}

/// `LruCache::get`: the value stored under `k`, which becomes the most
/// recently used entry.
#[verifier::external_body]
fn lru_get(c: &mut LruCache<String, (u32, u32)>, k: &str) -> (r: Option<(u32, u32)>)
    ensures
        lru_capacity(*final(c)) == lru_capacity(*old(c)),
        ({
            let e = lru_entries(*old(c));
            let p = key_pos(e, k@);
            if p >= 0 {
                &&& lru_entries(*final(c)) == moved_to_back(e, p, e[p])
                &&& r == Some(e[p].1)
            } else {
                &&& lru_entries(*final(c)) == e
                &&& r is None
            }
        }),
{
    c.get(k).copied()
}

/// `LruCache::pop`: removes the entry stored under `k` and hands back its
/// value.
#[verifier::external_body]
fn lru_pop(c: &mut LruCache<String, (u32, u32)>, k: &str) -> (r: Option<(u32, u32)>)
    ensures
        lru_capacity(*final(c)) == lru_capacity(*old(c)),
        ({
            let e = lru_entries(*old(c));
            let p = key_pos(e, k@);
            if p >= 0 {
                &&& lru_entries(*final(c)) == e.remove(p)
                &&& r == Some(e[p].1)
            } else {
                &&& lru_entries(*final(c)) == e
                &&& r is None
            }
        }),
{
    c.pop(k)
}

/// `LruCache::pop_lru`: removes the least recently used entry and hands it
/// back.
#[verifier::external_body]
fn lru_pop_lru(c: &mut LruCache<String, (u32, u32)>) -> (r: Option<(String, (u32, u32))>)
    ensures
        lru_capacity(*final(c)) == lru_capacity(*old(c)),
        ({
            let e = lru_entries(*old(c));
            if e.len() > 0 {
                &&& lru_entries(*final(c)) == e.drop_first()
                &&& r matches Some(out) && out.0@ == e[0].0 && out.1 == e[0].1
            } else {
                &&& lru_entries(*final(c)) == e
                &&& r is None
            }
        }),
{
    c.pop_lru()
}

/// `LruCache::resize`: sets the capacity, dropping least recently used
/// entries beyond it.
#[verifier::external_body]
fn lru_resize(c: &mut LruCache<String, (u32, u32)>, cap: usize)
    requires
        cap >= 1,
    ensures
        lru_capacity(*final(c)) == cap,
        ({
            let e = lru_entries(*old(c));
            if e.len() > cap {
                lru_entries(*final(c)) == e.subrange(e.len() - cap, e.len() as int)
            } else {
                lru_entries(*final(c)) == e
            }
        }),
{
    c.resize(NonZeroUsize::new(cap).unwrap())
}

/// `LruCache::clear`: removes every entry.
#[verifier::external_body]
fn lru_clear(c: &mut LruCache<String, (u32, u32)>)
    ensures
        lru_capacity(*final(c)) == lru_capacity(*old(c)),
        lru_entries(*final(c)) == Seq::<Entry>::empty(),
{
    c.clear()
}

/// `LruCache::contains`: whether an entry is stored under `k`; the order of
/// entries stays.
#[verifier::external_body]
fn lru_contains(c: &LruCache<String, (u32, u32)>, k: &str) -> (r: bool)
    ensures
        r == (key_pos(lru_entries(*c), k@) >= 0),
{
    c.contains(k)
}

/// `LruCache::len`: the number of entries.
#[verifier::external_body]
fn lru_len(c: &LruCache<String, (u32, u32)>) -> (r: usize)
    ensures
        r == lru_entries(*c).len(),
{
    c.len()
}


/// The cache of decoded images.
pub struct ImageCache {
    full_images: LruCache<String, (u32, u32)>,
    thumbnails: LruCache<String, (u32, u32)>,
    pending: StringHashSet,
    pending_thumbnails: StringHashSet,
}

impl ImageCache {
    /// Full images held, least recently used first.
    pub closed spec fn full(&self) -> Seq<Entry> {
        lru_entries(self.full_images)
    }

    /// Thumbnails held, least recently used first.
    pub closed spec fn thumbs(&self) -> Seq<Entry> {
        lru_entries(self.thumbnails)
    }

    /// How many full images the cache holds at most.
    pub closed spec fn full_cap(&self) -> nat {
        lru_capacity(self.full_images)
    }

    /// How many thumbnails the cache holds at most.
    pub closed spec fn thumb_cap(&self) -> nat {
        lru_capacity(self.thumbnails)
    }

    /// Paths whose full image is being decoded.
    pub closed spec fn pending(&self) -> Set<Seq<char>> {
        self.pending@
    }

    /// Paths whose thumbnail is being decoded.
    pub closed spec fn pending_thumbs(&self) -> Set<Seq<char>> {
        self.pending_thumbnails@
    }

    /// Both tables have distinct keys and stay within their capacities.
    pub closed spec fn wf(&self) -> bool {
        lru_ok(self.full_images) && lru_ok(self.thumbnails)
    }

    /// A cache that holds at most `full_capacity` full images and
    /// `thumbnail_capacity` thumbnails (each at least one).
    pub fn new(full_capacity: usize, thumbnail_capacity: usize) -> (r: ImageCache)
        ensures
            r.wf(),
            r.full() == Seq::<Entry>::empty(),
            r.thumbs() == Seq::<Entry>::empty(),
            r.full_cap() == at_least_one(full_capacity),
            r.thumb_cap() == at_least_one(thumbnail_capacity),
            r.pending() == Set::<Seq<char>>::empty(),
            r.pending_thumbs() == Set::<Seq<char>>::empty(),
    {
        let fc = if full_capacity == 0 { 1 } else { full_capacity };
        let tc = if thumbnail_capacity == 0 { 1 } else { thumbnail_capacity };
        ImageCache {
            full_images: lru_new(fc),
            thumbnails: lru_new(tc),
            pending: StringHashSet::new(),
            pending_thumbnails: StringHashSet::new(),
        }
    }

    /// A cache for 20 full images and 1000 thumbnails.
    pub fn with_defaults() -> (r: ImageCache)
        ensures
            r.wf(),
            r.full() == Seq::<Entry>::empty(),
            r.thumbs() == Seq::<Entry>::empty(),
            r.full_cap() == 20,
            r.thumb_cap() == 1000,
            r.pending() == Set::<Seq<char>>::empty(),
            r.pending_thumbs() == Set::<Seq<char>>::empty(),
    {
        ImageCache::new(20, 1000)
    }

    /// Sets the number of full images held (at least one). The least
    /// recently used images beyond it leave; their paths are returned, least
    /// recently used first.
    pub fn resize(&mut self, new_capacity: usize) -> (evicted: Vec<String>)
        requires
            old(self).wf(),
        ensures
            final(self).wf(),
            final(self).full_cap() == at_least_one(new_capacity),
            final(self).full() == trimmed(old(self).full(), at_least_one(new_capacity)),
            evicted@.len() == old(self).full().len() - final(self).full().len(),
            forall|i: int|
                0 <= i < evicted@.len() ==> #[trigger] evicted@[i]@ == old(self).full()[i].0,
            final(self).thumbs() == old(self).thumbs(),
            final(self).thumb_cap() == old(self).thumb_cap(),
            final(self).pending() == old(self).pending(),
            final(self).pending_thumbs() == old(self).pending_thumbs(),
    {
        let cap = if new_capacity == 0 { 1 } else { new_capacity };
        let ghost start = self.full();
        let mut evicted: Vec<String> = Vec::new();
        let mut n = lru_len(&self.full_images);
        while n > cap
            invariant
                lru_ok(self.full_images),
                n == self.full().len(),
                cap >= 1,
                self.full().len() + evicted@.len() == start.len(),
                self.full() == start.subrange(evicted@.len() as int, start.len() as int),
                forall|i: int| 0 <= i < evicted@.len() ==> #[trigger] evicted@[i]@ == start[i].0,
                self.thumbs() == old(self).thumbs(),
                self.thumb_cap() == old(self).thumb_cap(),
                self.pending() == old(self).pending(),
                self.pending_thumbs() == old(self).pending_thumbs(),
                start == old(self).full(),
                lru_ok(self.thumbnails),
                start.len() > cap ==> n >= cap,
                start.len() <= cap ==> evicted@.len() == 0,
            decreases n,
        {
            let ghost e = self.full();
            let out = lru_pop_lru(&mut self.full_images);
            match out {
                Some(entry) => {
                    evicted.push(entry.0);
                },
                None => {},
            }
            proof {
                assert(self.full() =~= start.subrange(evicted@.len() as int, start.len() as int));
                assert forall|i: int, j: int| 0 <= i < j < self.full().len() implies self.full()[i].0
                    != self.full()[j].0 by {
                    assert(self.full()[i] == e[i + 1]);
                    assert(self.full()[j] == e[j + 1]);
                }
            }
            n = n - 1;
        }
        lru_resize(&mut self.full_images, cap);
        proof {
            if start.len() > cap {
                assert(self.full() =~= trimmed(start, cap as nat));
            } else {
                assert(evicted@.len() == 0);
                assert(self.full() =~= start);
            }
        }
        evicted
    }

    /// The dimensions of the full image of `path`, which becomes the most
    /// recently used.
    pub fn get_full(&mut self, path: &str) -> (r: Option<Dims>)
        requires
            old(self).wf(),
        ensures
            final(self).wf(),
            r == looked_up(old(self).full(), path_key_of(path@)).0,
            final(self).full() == looked_up(old(self).full(), path_key_of(path@)).1,
            final(self).same_except_full(*old(self)),
    {
        let key = path_key(path);
        let r = lru_get(&mut self.full_images, key.as_str());
        proof {
            lemma_key_pos(old(self).full(), key@);
            lemma_moved_to_back_ok(old(self).full(), key_pos(old(self).full(), key@), lru_capacity(self.full_images));
        }
        r
    }

    /// Stores the dimensions of the full image of `path` as the most recently
    /// used, and marks its decoding finished. When the table was full and
    /// `path` new, the least recently used image leaves; its path is
    /// returned.
    pub fn insert_full(&mut self, path: String, dims: Dims) -> (evicted: Option<String>)
        requires
            old(self).wf(),
        ensures
            final(self).wf(),
            final(self).full() == stored(old(self).full(), old(self).full_cap(), path_key_of(path@), dims).0,
            stored(old(self).full(), old(self).full_cap(), path_key_of(path@), dims).1 matches Some(k) ==> (
                evicted matches Some(s) && s@ == k),
            stored(old(self).full(), old(self).full_cap(), path_key_of(path@), dims).1 is None ==> evicted is None,
            final(self).pending() == old(self).pending().remove(path_key_of(path@)),
            final(self).full_cap() == old(self).full_cap(),
            final(self).thumbs() == old(self).thumbs(),
            final(self).thumb_cap() == old(self).thumb_cap(),
            final(self).pending_thumbs() == old(self).pending_thumbs(),
    {
        let key = path_key(path.as_str());
        let ghost e = self.full();
        let ghost p = key_pos(e, key@);
        let removed = self.pending.remove(key.as_str());
        let present = lru_contains(&self.full_images, key.as_str());
        let out = lru_push(&mut self.full_images, key, dims);
        proof {
            lemma_key_pos(e, key@);
            lemma_store_ok(e, lru_capacity(self.full_images), key@, dims);
        }
        if present {
            None
        } else {
            match out {
                Some(entry) => Some(entry.0),
                None => None,
            }
        }
    }

    /// Drops the full image of `path`.
    pub fn remove_full(&mut self, path: &str)
        requires
            old(self).wf(),
        ensures
            final(self).wf(),
            final(self).full() == without(old(self).full(), path_key_of(path@)),
            final(self).same_except_full(*old(self)),
    {
        let key = path_key(path);
        let _ = lru_pop(&mut self.full_images, key.as_str());
        proof {
            lemma_key_pos(old(self).full(), key@);
            lemma_remove_ok(old(self).full(), key_pos(old(self).full(), key@));
        }
    }

    /// The dimensions of the thumbnail of `path`, which becomes the most
    /// recently used.
    pub fn get_thumbnail(&mut self, path: &str) -> (r: Option<Dims>)
        requires
            old(self).wf(),
        ensures
            final(self).wf(),
            r == looked_up(old(self).thumbs(), path_key_of(path@)).0,
            final(self).thumbs() == looked_up(old(self).thumbs(), path_key_of(path@)).1,
            final(self).same_except_thumbs(*old(self)),
    {
        let key = path_key(path);
        let r = lru_get(&mut self.thumbnails, key.as_str());
        proof {
            lemma_key_pos(old(self).thumbs(), key@);
            lemma_moved_to_back_ok(old(self).thumbs(), key_pos(old(self).thumbs(), key@), lru_capacity(self.thumbnails));
        }
        r
    }

    /// Stores the thumbnail dimensions of `path` as the most recently used,
    /// and marks its decoding finished. When the table was full and `path`
    /// new, the least recently used thumbnail leaves; its path is returned.
    pub fn insert_thumbnail(&mut self, path: String, dims: Dims) -> (evicted: Option<String>)
        requires
            old(self).wf(),
        ensures
            final(self).wf(),
            final(self).thumbs() == stored(old(self).thumbs(), old(self).thumb_cap(), path_key_of(path@), dims).0,
            stored(old(self).thumbs(), old(self).thumb_cap(), path_key_of(path@), dims).1 matches Some(k) ==> (
                evicted matches Some(s) && s@ == k),
            stored(old(self).thumbs(), old(self).thumb_cap(), path_key_of(path@), dims).1 is None ==> evicted is None,
            final(self).pending_thumbs() == old(self).pending_thumbs().remove(path_key_of(path@)),
            final(self).thumb_cap() == old(self).thumb_cap(),
            final(self).full() == old(self).full(),
            final(self).full_cap() == old(self).full_cap(),
            final(self).pending() == old(self).pending(),
    {
        let key = path_key(path.as_str());
        let ghost e = self.thumbs();
        let ghost p = key_pos(e, key@);
        let removed = self.pending_thumbnails.remove(key.as_str());
        let present = lru_contains(&self.thumbnails, key.as_str());
        let out = lru_push(&mut self.thumbnails, key, dims);
        proof {
            lemma_key_pos(e, key@);
            lemma_store_ok(e, lru_capacity(self.thumbnails), key@, dims);
        }
        if present {
            None
        } else {
            match out {
                Some(entry) => Some(entry.0),
                None => None,
            }
        }
    }

    /// Drops the thumbnail of `path`.
    pub fn remove_thumbnail(&mut self, path: &str)
        requires
            old(self).wf(),
        ensures
            final(self).wf(),
            final(self).thumbs() == without(old(self).thumbs(), path_key_of(path@)),
            final(self).same_except_thumbs(*old(self)),
    {
        let key = path_key(path);
        let _ = lru_pop(&mut self.thumbnails, key.as_str());
        proof {
            lemma_key_pos(old(self).thumbs(), key@);
            lemma_remove_ok(old(self).thumbs(), key_pos(old(self).thumbs(), key@));
        }
    }

    /// How many thumbnails are being decoded.
    pub fn pending_thumbnail_count(&self) -> (r: usize)
        ensures
            r == self.pending_thumbs().len(),
    {
        self.pending_thumbnails.len()
    }

    /// Whether the thumbnail of `path` is being decoded.
    pub fn is_thumbnail_pending(&self, path: &str) -> (r: bool)
        ensures
            r == self.pending_thumbs().contains(path_key_of(path@)),
    {
        let key = path_key(path);
        self.pending_thumbnails.contains(key.as_str())
    }

    /// Marks the thumbnail of `path` as being decoded.
    pub fn set_thumbnail_pending(&mut self, path: String)
        requires
            old(self).wf(),
        ensures
            final(self).wf(),
            final(self).pending_thumbs() == old(self).pending_thumbs().insert(path_key_of(path@)),
            final(self).same_except_pending_thumbs(*old(self)),
    {
        let key = path_key(path.as_str());
        let _ = self.pending_thumbnails.insert(key);
    }

    /// Marks the thumbnail of `path` as no longer being decoded.
    pub fn clear_pending_thumbnail(&mut self, path: &str)
        requires
            old(self).wf(),
        ensures
            final(self).wf(),
            final(self).pending_thumbs() == old(self).pending_thumbs().remove(path_key_of(path@)),
            final(self).same_except_pending_thumbs(*old(self)),
    {
        let key = path_key(path);
        let _ = self.pending_thumbnails.remove(key.as_str());
    }

    /// Whether the full image of `path` is being decoded.
    pub fn is_pending(&self, path: &str) -> (r: bool)
        ensures
            r == self.pending().contains(path_key_of(path@)),
    {
        let key = path_key(path);
        self.pending.contains(key.as_str())
    }

    /// Marks the full image of `path` as being decoded.
    pub fn set_pending(&mut self, path: String)
        requires
            old(self).wf(),
        ensures
            final(self).wf(),
            final(self).pending() == old(self).pending().insert(path_key_of(path@)),
            final(self).same_except_pending(*old(self)),
    {
        let key = path_key(path.as_str());
        let _ = self.pending.insert(key);
    }

    /// Marks the full image of `path` as no longer being decoded.
    pub fn clear_pending(&mut self, path: &str)
        requires
            old(self).wf(),
        ensures
            final(self).wf(),
            final(self).pending() == old(self).pending().remove(path_key_of(path@)),
            final(self).same_except_pending(*old(self)),
    {
        let key = path_key(path);
        let _ = self.pending.remove(key.as_str());
    }

    /// Drops every thumbnail and forgets the thumbnails being decoded.
    pub fn clear_thumbnails(&mut self)
        requires
            old(self).wf(),
        ensures
            final(self).wf(),
            final(self).thumbs() == Seq::<Entry>::empty(),
            final(self).pending_thumbs() == Set::<Seq<char>>::empty(),
            final(self).thumb_cap() == old(self).thumb_cap(),
            final(self).full() == old(self).full(),
            final(self).full_cap() == old(self).full_cap(),
            final(self).pending() == old(self).pending(),
    {
        lru_clear(&mut self.thumbnails);
        self.pending_thumbnails.clear();
    }

    /// Drops everything the cache holds; the capacities stay.
    pub fn clear(&mut self)
        requires
            old(self).wf(),
        ensures
            final(self).wf(),
            final(self).full() == Seq::<Entry>::empty(),
            final(self).thumbs() == Seq::<Entry>::empty(),
            final(self).pending() == Set::<Seq<char>>::empty(),
            final(self).pending_thumbs() == Set::<Seq<char>>::empty(),
            final(self).full_cap() == old(self).full_cap(),
            final(self).thumb_cap() == old(self).thumb_cap(),
    {
        lru_clear(&mut self.full_images);
        lru_clear(&mut self.thumbnails);
        self.pending.clear();
        self.pending_thumbnails.clear();
    }

    /// Everything but the full-image table is as in `o`.
    pub open spec fn same_except_full(&self, o: ImageCache) -> bool {
        &&& self.full_cap() == o.full_cap()
        &&& self.thumbs() == o.thumbs()
        &&& self.thumb_cap() == o.thumb_cap()
        &&& self.pending() == o.pending()
        &&& self.pending_thumbs() == o.pending_thumbs()
    }

    /// Everything but the thumbnail table is as in `o`.
    pub open spec fn same_except_thumbs(&self, o: ImageCache) -> bool {
        &&& self.thumb_cap() == o.thumb_cap()
        &&& self.full() == o.full()
        &&& self.full_cap() == o.full_cap()
        &&& self.pending() == o.pending()
        &&& self.pending_thumbs() == o.pending_thumbs()
    }

    /// Everything but the set of pending full images is as in `o`.
    pub open spec fn same_except_pending(&self, o: ImageCache) -> bool {
        &&& self.full() == o.full()
        &&& self.full_cap() == o.full_cap()
        &&& self.thumbs() == o.thumbs()
        &&& self.thumb_cap() == o.thumb_cap()
        &&& self.pending_thumbs() == o.pending_thumbs()
    }

    /// Everything but the set of pending thumbnails is as in `o`.
    pub open spec fn same_except_pending_thumbs(&self, o: ImageCache) -> bool {
        &&& self.full() == o.full()
        &&& self.full_cap() == o.full_cap()
        &&& self.thumbs() == o.thumbs()
        &&& self.thumb_cap() == o.thumb_cap()
        &&& self.pending() == o.pending()
    }
}

impl Default for ImageCache {
    /// A cache with the default capacities.
    fn default() -> (r: Self)
        ensures
            r.wf(),
            r.full() == Seq::<Entry>::empty(),
            r.thumbs() == Seq::<Entry>::empty(),
            r.full_cap() == 20,
            r.thumb_cap() == 1000,
            r.pending() == Set::<Seq<char>>::empty(),
            r.pending_thumbs() == Set::<Seq<char>>::empty(),
    {
        ImageCache::with_defaults()
    }
}

/// A requested capacity, raised to one.
pub open spec fn at_least_one(n: usize) -> nat {
    if n == 0 {
        1
    } else {
        n as nat
    }
}

/// The entries left when a table of entries `e` is cut to capacity `cap`:
/// the most recently used ones.
pub open spec fn trimmed(e: Seq<Entry>, cap: nat) -> Seq<Entry> {
    if e.len() > cap {
        e.subrange(e.len() - cap, e.len() as int)
    } else {
        e
    }
}

/// A lookup of `k` in `e`: the value found, and the entries after the found
/// one has become the most recently used.
pub open spec fn looked_up(e: Seq<Entry>, k: Seq<char>) -> (Option<Dims>, Seq<Entry>) {
    let p = key_pos(e, k);
    if p >= 0 {
        (Some(e[p].1), moved_to_back(e, p, e[p]))
    } else {
        (None, e)
    }
}

/// The entries of `e` without the one of key `k`.
pub open spec fn without(e: Seq<Entry>, k: Seq<char>) -> Seq<Entry> {
    let p = key_pos(e, k);
    if p >= 0 {
        e.remove(p)
    } else {
        e
    }
}

/// Storing `v` under `k` in a table of entries `e` and capacity `cap`: the
/// new entries, and the key of the entry that left to make room, if any.
pub open spec fn stored(e: Seq<Entry>, cap: nat, k: Seq<char>, v: Dims) -> (Seq<Entry>, Option<
    Seq<char>,
>) {
    let p = key_pos(e, k);
    if p >= 0 {
        (moved_to_back(e, p, (k, v)), None)
    } else if e.len() == cap {
        (e.drop_first().push((k, v)), Some(e[0].0))
    } else {
        (e.push((k, v)), None)
    }
}

proof fn lemma_remove_ok(e: Seq<Entry>, p: int)
    requires
        keys_distinct(e),
    ensures
        0 <= p < e.len() ==> keys_distinct(e.remove(p)),
{
    if 0 <= p < e.len() {
        let r = e.remove(p);
        assert forall|i: int, j: int| 0 <= i < j < r.len() implies r[i].0 != r[j].0 by {
            let a = if i < p { i } else { i + 1 };
            let b = if j < p { j } else { j + 1 };
            assert(r[i] == e[a]);
            assert(r[j] == e[b]);
        }
    }
}

proof fn lemma_moved_to_back_ok(e: Seq<Entry>, p: int, cap: nat)
    requires
        keys_distinct(e),
        e.len() <= cap,
    ensures
        0 <= p < e.len() ==> keys_distinct(moved_to_back(e, p, e[p])) && moved_to_back(
            e,
            p,
            e[p],
        ).len() <= cap,
{
    if 0 <= p < e.len() {
        lemma_remove_ok(e, p);
        let r = e.remove(p);
        let m = r.push(e[p]);
        assert forall|i: int, j: int| 0 <= i < j < m.len() implies m[i].0 != m[j].0 by {
            if j == m.len() - 1 {
                let a = if i < p { i } else { i + 1 };
                assert(m[i] == e[a]);
                assert(m[j] == e[p]);
            } else {
                assert(m[i] == r[i]);
                assert(m[j] == r[j]);
            }
        }
    }
}

proof fn lemma_store_ok(e: Seq<Entry>, cap: nat, k: Seq<char>, v: Dims)
    requires
        keys_distinct(e),
        e.len() <= cap,
        cap >= 1,
    ensures
        keys_distinct(stored(e, cap, k, v).0),
        stored(e, cap, k, v).0.len() <= cap,
{
    lemma_key_pos(e, k);
    let p = key_pos(e, k);
    if p >= 0 {
        lemma_remove_ok(e, p);
        let r = e.remove(p);
        let m = r.push((k, v));
        assert forall|i: int, j: int| 0 <= i < j < m.len() implies m[i].0 != m[j].0 by {
            if j == m.len() - 1 {
                let a = if i < p { i } else { i + 1 };
                assert(m[i] == e[a]);
            } else {
                assert(m[i] == r[i]);
                assert(m[j] == r[j]);
            }
        }
    } else {
        let base = if e.len() == cap { e.drop_first() } else { e };
        let m = base.push((k, v));
        assert forall|i: int, j: int| 0 <= i < j < m.len() implies m[i].0 != m[j].0 by {
            let off: int = if e.len() == cap { 1 } else { 0 };
            assert(m[i] == e[i + off]);
            if j < m.len() - 1 {
                assert(m[j] == e[j + off]);
            }
        }
    }
}

/// What is stored under a key is found there by the next lookup, which
/// leaves it the most recently used entry.
pub proof fn lemma_lookup_after_store(e: Seq<Entry>, cap: nat, k: Seq<char>, v: Dims)
    requires
        keys_distinct(e),
        e.len() <= cap,
        cap >= 1,
    ensures
        looked_up(stored(e, cap, k, v).0, k).0 == Some(v),
        looked_up(stored(e, cap, k, v).0, k).1 == stored(e, cap, k, v).0,
{
    let m = stored(e, cap, k, v).0;
    assert(m.last() == (k, v));
    assert(key_pos(m, k) == m.len() - 1);
    assert(m.remove(m.len() - 1).push(m[m.len() - 1]) =~= m);
}

/// After the entry of a key is dropped, a lookup of that key finds nothing.
pub proof fn lemma_lookup_after_remove(e: Seq<Entry>, k: Seq<char>)
    requires
        keys_distinct(e),
    ensures
        looked_up(without(e, k), k).0 is None,
{
    lemma_key_pos(e, k);
    let w = without(e, k);
    let p = key_pos(e, k);
    if p >= 0 {
        assert forall|i: int| 0 <= i < w.len() implies w[i].0 != k by {
            let a = if i < p { i } else { i + 1 };
            assert(w[i] == e[a]);
        }
    }
    lemma_key_pos(w, k);
}

/// Storing a new key in a full table drops exactly the least recently used
/// entry; otherwise nothing is dropped.
pub proof fn lemma_store_evicts_lru(e: Seq<Entry>, cap: nat, k: Seq<char>, v: Dims)
    requires
        keys_distinct(e),
        e.len() <= cap,
        cap >= 1,
    ensures
        stored(e, cap, k, v).1 is Some <==> (key_pos(e, k) < 0 && e.len() == cap),
        stored(e, cap, k, v).1 is Some ==> stored(e, cap, k, v).1 == Some(e[0].0),
        stored(e, cap, k, v).0.len() == (if key_pos(e, k) >= 0 || e.len() == cap {
            e.len()
        } else {
            e.len() + 1
        }),
{
    lemma_key_pos(e, k);
}

} // verus!
