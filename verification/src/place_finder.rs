//! A cache of place names, keyed by the grid cell of the coordinates they
//! were found for. The cache is bounded: when it is full, the entry that
//! was used longest ago makes room.
use crate::coordinates::Coordinate;
use lru::LruCache;
use std::num::NonZeroUsize;
use vstd::prelude::*;

verus! {

/// `lru::LruCache`, taken as it is: nothing of its inside is known here.
#[verifier::external_type_specification]
#[verifier::external_body]
#[verifier::reject_recursive_types(K)]
#[verifier::reject_recursive_types(V)]
#[verifier::reject_recursive_types(S)]
pub struct ExLruCache<K, V, S>(LruCache<K, V, S>);

/// `lru::DefaultHasher`, the hasher that an `LruCache` is made with unless
/// it is given another; nothing of its inside is known here.
#[verifier::external_type_specification]
#[verifier::external_body]
pub struct ExLruHasher(lru::DefaultHasher);

/// What a cache of place names holds: for each entry its grid cell and its
/// name, the entry used last standing first.
pub uninterp spec fn lru_entries(cache: LruCache<(i32, i32), String>) -> Seq<
    ((i32, i32), Seq<char>),
>;

/// The number of entries that a cache was made to hold at most.
pub uninterp spec fn lru_limit(cache: LruCache<(i32, i32), String>) -> nat;

/// Whether some entry has this key.
pub open spec fn holds(entries: Seq<((i32, i32), Seq<char>)>, key: (i32, i32)) -> bool {
    exists|i: int| 0 <= i < entries.len() && (#[trigger] entries[i]).0 == key
}

/// Where the entry with this key stands, if one has it.
pub open spec fn position_of(entries: Seq<((i32, i32), Seq<char>)>, key: (i32, i32)) -> int {
    choose|i: int| 0 <= i < entries.len() && (#[trigger] entries[i]).0 == key
}

/// The name stored under a key.
pub open spec fn name_of(entries: Seq<((i32, i32), Seq<char>)>, key: (i32, i32)) -> Option<
    Seq<char>,
> {
    if holds(entries, key) {
        Some(entries[position_of(entries, key)].1)
    } else {
        None
    }
}

/// The entries after a lookup of `key`: a hit moves its entry to the front,
/// a miss changes nothing.
pub open spec fn touched(entries: Seq<((i32, i32), Seq<char>)>, key: (i32, i32)) -> Seq<
    ((i32, i32), Seq<char>),
> {
    if holds(entries, key) {
        let i = position_of(entries, key);
        seq![entries[i]] + entries.remove(i)
    } else {
        entries
    }
}

/// The entries after `name` was stored under `key`, in a cache that holds
/// `limit` entries at most. The new entry stands first. An entry that had
/// the key is replaced; otherwise, in a full cache, the last entry leaves.
pub open spec fn stored(
    entries: Seq<((i32, i32), Seq<char>)>,
    limit: nat,
    key: (i32, i32),
    name: Seq<char>,
) -> Seq<((i32, i32), Seq<char>)> {
    if holds(entries, key) {
        seq![(key, name)] + entries.remove(position_of(entries, key))
    } else if entries.len() == limit {
        seq![(key, name)] + entries.drop_last()
    } else {
        seq![(key, name)] + entries
    }
}

/// No two entries share a key.
pub open spec fn keys_distinct(entries: Seq<((i32, i32), Seq<char>)>) -> bool {
    forall|i: int, j: int|
        0 <= i < entries.len() && 0 <= j < entries.len() && i != j ==> (#[trigger] entries[i]).0
            != (#[trigger] entries[j]).0
}

/// An empty cache for at most `limit` entries. Wraps `LruCache::new`, which
/// makes room for `limit` entries at once: `limit` is kept within
/// [`MAX_CAPACITY`], far from where the size of the table would overflow.
#[verifier::external_body]
fn lru_new(limit: usize) -> (cache: LruCache<(i32, i32), String>)
    requires
        0 < limit <= MAX_CAPACITY,
    ensures
        lru_entries(cache) == Seq::<((i32, i32), Seq<char>)>::empty(),
        lru_limit(cache) == limit,
{
    LruCache::new(NonZeroUsize::new(limit).unwrap())
}

/// Looks a key up. Wraps `LruCache::get`: it returns the value stored
/// under the key, if any, and moves that entry to the head of the list. It
/// does not panic.
#[verifier::external_body]
fn lru_get(cache: &mut LruCache<(i32, i32), String>, key: (i32, i32)) -> (found: Option<String>)
    ensures
        found.is_some() == holds(lru_entries(*old(cache)), key),
        found matches Some(name) ==> Some(name@) == name_of(lru_entries(*old(cache)), key),
        lru_entries(*final(cache)) == touched(lru_entries(*old(cache)), key),
        lru_limit(*final(cache)) == lru_limit(*old(cache)),
    no_unwind
{
    cache.get(&key).cloned()
}

/// Stores a name under a key. Wraps `LruCache::put`: where the key is
/// there, its value is replaced and the entry moves to the head of the
/// list; where it is not, the new entry is put at the head, after the
/// entry at the tail was removed if the cache held as many as its limit.
/// It does not panic.
#[verifier::external_body]
fn lru_put(cache: &mut LruCache<(i32, i32), String>, key: (i32, i32), name: String)
    ensures
        lru_entries(*final(cache)) == stored(
            lru_entries(*old(cache)),
            lru_limit(*old(cache)),
            key,
            name@,
        ),
        lru_limit(*final(cache)) == lru_limit(*old(cache)),
    no_unwind
{
    cache.put(key, name);
}

/// The number of places that a cache made by [`GeocodeCache::new`] holds.
pub const DEFAULT_CAPACITY: usize = 1000;

/// The largest number of places that a cache can be made for.
pub const MAX_CAPACITY: usize = 1_048_576;

/// The name that stands for coordinates of exactly zero.
pub const NULL_ISLAND: &'static str = "Null Island";

/// The name that stands for a grid cell near which no place was found.
pub const UNKNOWN_PLACE: &'static str = "Unknown Place";

/// A bounded cache of place names by grid cell.
pub struct GeocodeCache {
    places: LruCache<(i32, i32), String>,
}

/// What the cache answers to a request.
pub enum PlaceRequest {
    /// The name is known: nothing is to be searched.
    Known(String),
    /// The cell is not in the cache: its place is to be searched, and the
    /// outcome, a place or none, handed to [`GeocodeCache::complete`].
    Search((i32, i32)),
}

impl View for GeocodeCache {
    type V = Seq<((i32, i32), Seq<char>)>;

    closed spec fn view(&self) -> Seq<((i32, i32), Seq<char>)> {
        lru_entries(self.places)
    }
}

impl GeocodeCache {
    /// The number of entries that the cache holds at most.
    pub closed spec fn capacity(&self) -> nat {
        lru_limit(self.places)
    }

    #[verifier::type_invariant]
    spec fn well_formed(self) -> bool {
        &&& lru_limit(self.places) > 0
        &&& lru_entries(self.places).len() <= lru_limit(self.places)
        &&& keys_distinct(lru_entries(self.places))
    }

    /// What holds of every cache, at all times: it is made for one entry at
    /// least, holds no more than it was made for, and no key twice.
    pub open spec fn inv(&self) -> bool {
        &&& self.capacity() > 0
        &&& self@.len() <= self.capacity()
        &&& keys_distinct(self@)
    }

    /// An empty cache for the default number of places.
    pub fn new() -> (cache: GeocodeCache)
        ensures
            cache@.len() == 0,
            cache.capacity() == DEFAULT_CAPACITY,
            cache.inv(),
    {
        GeocodeCache { places: lru_new(DEFAULT_CAPACITY) }
    }

    /// An empty cache for `capacity` places; `None` where `capacity` is zero
    /// or more than [`MAX_CAPACITY`].
    pub fn with_capacity(capacity: usize) -> (r: Option<GeocodeCache>)
        ensures
            r.is_some() <==> 0 < capacity <= MAX_CAPACITY,
            r matches Some(cache) ==> cache@.len() == 0 && cache.capacity() == capacity
                && cache.inv(),
    {
        if capacity == 0 || capacity > MAX_CAPACITY {
            None
        } else {
            Some(GeocodeCache { places: lru_new(capacity) })
        }
    }

    /// Looks a grid cell up. A hit returns the name and makes the entry the
    /// one used last; a miss leaves the cache as it is.
    pub fn lookup(&mut self, key: (i32, i32)) -> (found: Option<String>)
        ensures
            old(self).inv(),
            final(self).inv(),
            found.is_some() == holds(old(self)@, key),
            found matches Some(name) ==> Some(name@) == name_of(old(self)@, key),
            final(self)@ == touched(old(self)@, key),
            final(self).capacity() == old(self).capacity(),
    {
        proof {
            use_type_invariant(&*self);
            lemma_touched_preserves(self@, key);
        }
        lru_get(&mut self.places, key)
    }

    /// Stores a name under a grid cell and makes the entry the one used
    /// last. In a full cache that lacks the cell, the entry used longest
    /// ago leaves.
    pub fn store(&mut self, key: (i32, i32), name: String)
        ensures
            old(self).inv(),
            final(self).inv(),
            final(self)@ == stored(old(self)@, old(self).capacity(), key, name@),
            final(self).capacity() == old(self).capacity(),
    {
        proof {
            use_type_invariant(&*self);
            lemma_stored_preserves(self@, self.capacity(), key, name@);
        }
        lru_put(&mut self.places, key, name);
    }

    /// Asks for the place at the given coordinates.
    ///
    /// Coordinates of exactly zero stand for a missing position: the answer
    /// is [`NULL_ISLAND`], and the cache is neither read nor changed. Any
    /// other position is looked up by its grid cell: a hit gives the name,
    /// a miss asks for a search of that cell and leaves the cache as it is.
    pub fn request(&mut self, lat: &Coordinate, long: &Coordinate) -> (r: PlaceRequest)
        ensures
            old(self).inv(),
            final(self).inv(),
            final(self).capacity() == old(self).capacity(),
            lat@.is_zero() && long@.is_zero() ==> final(self)@ == old(self)@ && (
            r matches PlaceRequest::Known(name) && name@ == NULL_ISLAND@),
            !(lat@.is_zero() && long@.is_zero()) ==> final(self)@ == touched(
                old(self)@,
                (lat@.grid() as i32, long@.grid() as i32),
            ) && match name_of(old(self)@, (lat@.grid() as i32, long@.grid() as i32)) {
                Some(stored_name) => r matches PlaceRequest::Known(name) && name@ == stored_name,
                None => r == PlaceRequest::Search((lat@.grid() as i32, long@.grid() as i32)),
            },
    {
        proof {
            use_type_invariant(&*self);
        }
        if lat.is_zero() && long.is_zero() {
            return PlaceRequest::Known(NULL_ISLAND.to_owned());
        }
        let key = (lat.quantize(), long.quantize());
        match self.lookup(key) {
            Some(name) => PlaceRequest::Known(name),
            None => PlaceRequest::Search(key),
        }
    }

    /// Takes the outcome of the search that [`GeocodeCache::request`] asked
    /// for. The name of the place that was found, or [`UNKNOWN_PLACE`] where
    /// none was found, is stored under the cell and returned: whatever the
    /// search gave, the cell is not searched again while its entry stays in
    /// the cache.
    pub fn complete(&mut self, key: (i32, i32), found: Option<String>) -> (r: String)
        ensures
            old(self).inv(),
            final(self).inv(),
            final(self).capacity() == old(self).capacity(),
            r@ == searched_name(found),
            final(self)@ == stored(old(self)@, old(self).capacity(), key, searched_name(found)),
    {
        let name = match found {
            Some(name) => name,
            None => UNKNOWN_PLACE.to_owned(),
        };
        let answer = name.clone();
        self.store(key, name);
        answer
    }
}

/// The name that the outcome of a search gives to a cell: that of the place
/// found, or [`UNKNOWN_PLACE`].
pub open spec fn searched_name(found: Option<String>) -> Seq<char> {
    match found {
        Some(name) => name@,
        None => UNKNOWN_PLACE@,
    }
}

/// A cell is searched once at most while its entry stays in the cache.
/// After the outcome of the search was taken, whether a place was found or
/// not, the next request for any position in the cell is answered with the
/// name that the first request was answered with, and asks for no search;
/// so are the requests after it, each of which keeps the entry.
pub proof fn lemma_cell_searched_once(
    entries: Seq<((i32, i32), Seq<char>)>,
    limit: nat,
    key: (i32, i32),
    found: Option<String>,
)
    requires
        keys_distinct(entries),
        entries.len() <= limit,
        limit > 0,
    ensures
        ({
            let after = stored(entries, limit, key, searched_name(found));
            let again = touched(after, key);
            &&& keys_distinct(after) && after.len() <= limit
            &&& name_of(after, key) == Some(searched_name(found))
            &&& keys_distinct(again) && again.len() <= limit
            &&& name_of(again, key) == Some(searched_name(found))
        }),
{
    let after = stored(entries, limit, key, searched_name(found));
    lemma_stored_preserves(entries, limit, key, searched_name(found));
    lemma_touched_preserves(after, key);
}

/// In a full cache, storing a cell that is not there removes the entry used
/// longest ago, and only that one: a later lookup of its cell is a miss,
/// while every other entry is still found.
pub proof fn lemma_full_cache_evicts_oldest(
    entries: Seq<((i32, i32), Seq<char>)>,
    limit: nat,
    key: (i32, i32),
    name: Seq<char>,
)
    requires
        keys_distinct(entries),
        entries.len() == limit,
        limit > 0,
        !holds(entries, key),
    ensures
        !holds(stored(entries, limit, key, name), entries.last().0),
        forall|i: int|
            0 <= i < entries.len() - 1 ==> name_of(
                stored(entries, limit, key, name),
                (#[trigger] entries[i]).0,
            ) == Some(entries[i].1),
{
    let after = stored(entries, limit, key, name);
    lemma_stored_preserves(entries, limit, key, name);
    let oldest = entries.last();
    if holds(after, oldest.0) {
        let r = position_of(after, oldest.0);
        if r == 0 {
            assert(entries[entries.len() - 1].0 == key);
        } else {
            assert(after[r] == entries[r - 1]);
        }
    }
    assert forall|i: int| 0 <= i < entries.len() - 1 implies name_of(
        after,
        (#[trigger] entries[i]).0,
    ) == Some(entries[i].1) by {
        assert(after[i + 1] == entries[i]);
        assert(holds(after, entries[i].0));
        let r = position_of(after, entries[i].0);
        if r != i + 1 {
            assert(after[r].0 == after[i + 1].0);
        }
    }
}

/// While the cache is not full, storing removes nothing.
pub proof fn lemma_store_with_room_keeps_all(
    entries: Seq<((i32, i32), Seq<char>)>,
    limit: nat,
    key: (i32, i32),
    name: Seq<char>,
)
    requires
        keys_distinct(entries),
        entries.len() < limit,
        !holds(entries, key),
    ensures
        stored(entries, limit, key, name).len() == entries.len() + 1,
        forall|i: int|
            0 <= i < entries.len() ==> name_of(
                stored(entries, limit, key, name),
                (#[trigger] entries[i]).0,
            ) == Some(entries[i].1),
{
    let after = stored(entries, limit, key, name);
    lemma_stored_preserves(entries, limit, key, name);
    assert forall|i: int| 0 <= i < entries.len() implies name_of(
        after,
        (#[trigger] entries[i]).0,
    ) == Some(entries[i].1) by {
        assert(after[i + 1] == entries[i]);
        assert(holds(after, entries[i].0));
        let r = position_of(after, entries[i].0);
        if r != i + 1 {
            assert(after[r].0 == after[i + 1].0);
        }
    }
}

/// A lookup keeps the number of entries and their keys distinct.
pub proof fn lemma_touched_preserves(entries: Seq<((i32, i32), Seq<char>)>, key: (i32, i32))
    requires
        keys_distinct(entries),
    ensures
        keys_distinct(touched(entries, key)),
        touched(entries, key).len() == entries.len(),
        forall|k: (i32, i32)| holds(touched(entries, key), k) == holds(entries, k),
        forall|k: (i32, i32)| name_of(touched(entries, key), k) == name_of(entries, k),
{
    let after = touched(entries, key);
    if holds(entries, key) {
        let p = position_of(entries, key);
        // every entry of `after` is an entry of `entries`, and the other way round
        assert forall|i: int| 0 <= i < after.len() implies #[trigger] after[i] == entries[origin(
            p,
            i,
        )] by {}
        assert forall|i: int, j: int|
            0 <= i < after.len() && 0 <= j < after.len() && i != j implies (#[trigger] after[i]).0
            != (#[trigger] after[j]).0 by {
            assert(after[i] == entries[origin(p, i)]);
            assert(after[j] == entries[origin(p, j)]);
        }
        assert forall|k: (i32, i32)| holds(after, k) == holds(entries, k) && name_of(after, k)
            == name_of(entries, k) by {
            if holds(entries, k) {
                let q = position_of(entries, k);
                let q2 = moved(p, q);
                assert(after[q2] == entries[q]);
                assert(holds(after, k));
                let r = position_of(after, k);
                assert(after[r] == entries[origin(p, r)]);
                assert(origin(p, r) == q);
            }
            if holds(after, k) {
                let r = position_of(after, k);
                assert(after[r] == entries[origin(p, r)]);
                assert(holds(entries, k));
            }
        }
    }
}

/// Where the entry that stands at `i` after a move to the front stood
/// before, `p` being the place of the entry that moved.
pub open spec fn origin(p: int, i: int) -> int {
    if i == 0 {
        p
    } else if i <= p {
        i - 1
    } else {
        i
    }
}

/// Where the entry that stood at `q` stands after the entry at `p` moved
/// to the front.
pub open spec fn moved(p: int, q: int) -> int {
    if q == p {
        0
    } else if q < p {
        q + 1
    } else {
        q
    }
}

/// Storing keeps the keys distinct and the cache within its limit.
pub proof fn lemma_stored_preserves(
    entries: Seq<((i32, i32), Seq<char>)>,
    limit: nat,
    key: (i32, i32),
    name: Seq<char>,
)
    requires
        keys_distinct(entries),
        entries.len() <= limit,
        limit > 0,
    ensures
        keys_distinct(stored(entries, limit, key, name)),
        stored(entries, limit, key, name).len() <= limit,
        stored(entries, limit, key, name)[0] == (key, name),
        name_of(stored(entries, limit, key, name), key) == Some(name),
{
    let after = stored(entries, limit, key, name);
    if holds(entries, key) {
        let p = position_of(entries, key);
        assert forall|i: int, j: int|
            0 <= i < after.len() && 0 <= j < after.len() && i != j implies (#[trigger] after[i]).0
            != (#[trigger] after[j]).0 by {
            assert(after[i].0 == entries[origin(p, i)].0);
            assert(after[j].0 == entries[origin(p, j)].0);
        }
    } else {
        assert forall|i: int, j: int|
            0 <= i < after.len() && 0 <= j < after.len() && i != j implies (#[trigger] after[i]).0
            != (#[trigger] after[j]).0 by {
            if i > 0 {
                assert(after[i] == entries[i - 1]);
            }
            if j > 0 {
                assert(after[j] == entries[j - 1]);
            }
        }
    }
    assert(after[0] == (key, name));
    assert(holds(after, key));
    let r = position_of(after, key);
    if r != 0 {
        assert(after[r].0 == after[0].0);
    }
}

} // verus!
