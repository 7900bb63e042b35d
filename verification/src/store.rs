//! Keyed storage of per-key limiter state on top of `flurry`'s concurrent map.
//!
//! Each key is routed to one of a fixed number of shards by an FNV-1a hash of
//! its UTF-8 bytes. A shard is a `flurry::HashMap` from the key to a slot
//! number, and the slot number indexes a vector holding the key's state.
//! Slots freed by removal are recycled.

use vstd::prelude::*;
use vstd::string::*;
use vstd::utf8::encode_utf8;

verus! {

#[verifier::external_type_specification]
#[verifier::external_body]
#[verifier::reject_recursive_types(K)]
#[verifier::reject_recursive_types(V)]
#[verifier::reject_recursive_types(S)]
pub struct ExFlurryHashMap<K, V, S>(flurry::HashMap<K, V, S>);

#[verifier::external_type_specification]
#[verifier::external_body]
pub struct ExFlurryDefaultHashBuilder(flurry::DefaultHashBuilder);

/// A `flurry` map from keys to slot numbers.
pub type SlotMap = flurry::HashMap<String, usize>;

/// What a `flurry` map from keys to slot numbers holds.
pub uninterp spec fn slot_map_contents(m: SlotMap) -> Map<Seq<char>, usize>;

/// `flurry::HashMap::new`: the new map holds nothing.
#[verifier::external_body]
fn slot_map_new() -> (res: SlotMap)
    ensures
        slot_map_contents(res).dom() == Set::<Seq<char>>::empty(),
{
    flurry::HashMap::new()
}

/// `flurry::HashMap::get` under a fresh guard: the slot stored for `key`, if any.
#[verifier::external_body]
fn slot_map_get(m: &SlotMap, key: &str) -> (res: Option<usize>)
    ensures
        res == (if slot_map_contents(*m).contains_key(key@) {
            Some(slot_map_contents(*m)[key@])
        } else {
            None::<usize>
        }),
{
    let guard = m.guard();
    m.get(key, &guard).copied()
}

/// `flurry::HashMap::insert` under a fresh guard: `key` now maps to `slot`,
/// every other entry is kept.
#[verifier::external_body]
fn slot_map_insert(m: &mut SlotMap, key: String, slot: usize)
    ensures
        slot_map_contents(*final(m)) == slot_map_contents(*old(m)).insert(key@, slot),
{
    let guard = m.guard();
    m.insert(key, slot, &guard);
}

/// `flurry::HashMap::remove` under a fresh guard: `key` no longer has an
/// entry, every other entry is kept.
#[verifier::external_body]
fn slot_map_remove(m: &mut SlotMap, key: &str)
    ensures
        slot_map_contents(*final(m)) == slot_map_contents(*old(m)).remove(key@),
{
    let guard = m.guard();
    m.remove(key, &guard);
}

/// `flurry::HashMap::iter` under a fresh guard, each entry copied out: every
/// entry of the map appears exactly once, in an unspecified order.
#[verifier::external_body]
fn slot_map_entries(m: &SlotMap) -> (res: Vec<(String, usize)>)
    ensures
        forall|i: int|
            0 <= i < res@.len() ==> #[trigger] slot_map_contents(*m).contains_key(res@[i].0@)
                && slot_map_contents(*m)[res@[i].0@] == res@[i].1,
        forall|i: int, j: int|
            0 <= i < res@.len() && 0 <= j < res@.len() && i != j ==> #[trigger] res@[i].0@
                != #[trigger] res@[j].0@,
        forall|k: Seq<char>|
            #[trigger] slot_map_contents(*m).contains_key(k) ==> exists|i: int|
                0 <= i < res@.len() && #[trigger] res@[i].0@ == k,
{
    let guard = m.guard();
    m.iter(&guard).map(|(k, v)| (k.clone(), *v)).collect()
}

/// The FNV-1a hash of a byte sequence.
pub open spec fn fnv1a(bytes: Seq<u8>) -> u64
    decreases bytes.len(),
{
    if bytes.len() == 0 {
        0xcbf2_9ce4_8422_2325u64
    } else {
        let h = fnv1a(bytes.drop_last());
        (h ^ (bytes.last() as u64)).wrapping_mul(0x0000_0100_0000_01b3u64)
    }
}

/// The shard that `key` belongs to among `n` shards.
pub open spec fn route(key: Seq<char>, n: nat) -> int {
    if n == 0 {
        0
    } else {
        (fnv1a(encode_utf8(key)) as nat % n) as int
    }
}

/// Computes the FNV-1a hash of the UTF-8 bytes of `key`.
pub fn fnv1a_hash(key: &str) -> (res: u64)
    ensures
        res == fnv1a(key.spec_bytes()),
{
    let bytes = key.as_bytes_vec();
    let mut hash: u64 = 0xcbf2_9ce4_8422_2325;
    let mut i: usize = 0;
    while i < bytes.len()
        invariant
            bytes@ == key.spec_bytes(),
            0 <= i <= bytes.len(),
            hash == fnv1a(bytes@.subrange(0, i as int)),
        decreases bytes.len() - i,
    {
        assert(bytes@.subrange(0, i + 1).drop_last() =~= bytes@.subrange(0, i as int));
        hash = (hash ^ (bytes[i] as u64)).wrapping_mul(0x0000_0100_0000_01b3);
        i = i + 1;
    }
    assert(bytes@.subrange(0, bytes@.len() as int) =~= bytes@);
    hash
}

/// The shard that `key` belongs to among `n` shards.
pub fn shard_of(key: &str, n: usize) -> (res: usize)
    requires
        n > 0,
    ensures
        res == route(key@, n as nat),
        res < n,
{
    let h = fnv1a_hash(key);
    (h % (n as u64)) as usize
}

/// Per-key state that records when its key was last used.
pub trait Stamped: Copy {
    /// The last-access timestamp, in nanoseconds.
    spec fn stamp(&self) -> u64;

    /// The last-access timestamp, in nanoseconds.
    fn last_access(&self) -> (res: u64)
        ensures
            res == self.stamp(),
    ;
}

/// Whether an entry last used at `stamp` has been idle for at least `ttl` at `now`.
pub open spec fn is_idle(stamp: u64, now: u64, ttl: u64) -> bool {
    now.saturating_sub(stamp) >= ttl
}

/// The entries of `m` that have not been idle for `ttl` at `now`.
pub open spec fn without_idle<T: Stamped>(m: Map<Seq<char>, T>, now: u64, ttl: u64) -> Map<
    Seq<char>,
    T,
> {
    Map::new(|k: Seq<char>| m.contains_key(k) && !is_idle(m[k].stamp(), now, ttl), |k: Seq<char>| m[k])
}

/// Per-key state held in shards of `flurry` maps.
pub struct KeyedStore<T> {
    shards: Vec<SlotMap>,
    slots: Vec<T>,
    free: Vec<usize>,
}

impl<T: Copy> KeyedStore<T> {
    /// The shard map that `key` is routed to.
    pub closed spec fn shard_map(&self, key: Seq<char>) -> Map<Seq<char>, usize> {
        slot_map_contents(self.shards@[route(key, self.shards@.len())])
    }

    /// Whether `key` has an entry.
    pub closed spec fn has(&self, key: Seq<char>) -> bool {
        self.shard_map(key).contains_key(key)
    }

    /// The slot of `key`.
    pub closed spec fn slot_of(&self, key: Seq<char>) -> usize {
        self.shard_map(key)[key]
    }

    /// The number of shards.
    pub closed spec fn shard_count(&self) -> nat {
        self.shards@.len()
    }

    /// The state held for each key.
    pub closed spec fn view(&self) -> Map<Seq<char>, T> {
        Map::new(|k: Seq<char>| self.has(k), |k: Seq<char>| self.slots@[self.slot_of(k) as int])
    }

    /// The store's internal invariant.
    pub closed spec fn wf(&self) -> bool {
        &&& self.shards@.len() > 0
        &&& forall|i: int, k: Seq<char>|
            0 <= i < self.shards@.len() && #[trigger] slot_map_contents(self.shards@[i]).contains_key(
                k,
            ) ==> route(k, self.shards@.len()) == i
        &&& forall|k: Seq<char>| #[trigger] self.has(k) ==> self.slot_of(k) < self.slots@.len()
        &&& forall|k1: Seq<char>, k2: Seq<char>|
            #[trigger] self.has(k1) && #[trigger] self.has(k2) && k1 != k2 ==> self.slot_of(k1)
                != self.slot_of(k2)
        &&& forall|j: int| 0 <= j < self.free@.len() ==> #[trigger] self.free@[j] < self.slots@.len()
        &&& forall|j: int, k: Seq<char>|
            0 <= j < self.free@.len() && #[trigger] self.has(k) ==> self.slot_of(k)
                != #[trigger] self.free@[j]
        &&& forall|i: int, j: int|
            0 <= i < self.free@.len() && 0 <= j < self.free@.len() && i != j ==> #[trigger] self.free@[i]
                != #[trigger] self.free@[j]
    }

    /// Creates an empty store with `n` shards.
    pub fn new(n: usize) -> (res: Self)
        requires
            n > 0,
        ensures
            res.wf(),
            res.view() == Map::<Seq<char>, T>::empty(),
            res.shard_count() == n,
    {
        let mut shards: Vec<SlotMap> = Vec::new();
        let mut i: usize = 0;
        while i < n
            invariant
                i <= n,
                shards@.len() == i,
                forall|j: int|
                    0 <= j < i ==> #[trigger] slot_map_contents(shards@[j]).dom() == Set::<
                        Seq<char>,
                    >::empty(),
            decreases n - i,
        {
            shards.push(slot_map_new());
            i = i + 1;
        }
        let res = KeyedStore { shards, slots: Vec::new(), free: Vec::new() };
        assert(res.view() =~= Map::<Seq<char>, T>::empty()) by {
            assert forall|k: Seq<char>| !res.has(k) by {
                let r = route(k, n as nat);
                assert(slot_map_contents(shards@[r]).dom().contains(k) == false);
            }
        }
        assert forall|i: int, k: Seq<char>|
            0 <= i < res.shards@.len() && #[trigger] slot_map_contents(
                res.shards@[i],
            ).contains_key(k) implies route(k, res.shards@.len()) == i by {
            assert(slot_map_contents(shards@[i]).dom().contains(k) == false);
        }
        res
    }

    /// The number of shards.
    pub fn shards_len(&self) -> (res: usize)
        ensures
            res == self.shard_count(),
    {
        self.shards.len()
    }

    /// The state held for `key`, if any.
    pub fn get(&self, key: &str) -> (res: Option<T>)
        requires
            self.wf(),
        ensures
            res == (if self.view().contains_key(key@) {
                Some(self.view()[key@])
            } else {
                None::<T>
            }),
    {
        let s = shard_of(key, self.shards.len());
        let found = slot_map_get(&self.shards[s], key);
        assert(self.view().dom().contains(key@) == self.has(key@));
        match found {
            Some(slot) => {
                assert(s == route(key@, self.shards@.len()));
                assert(slot_map_contents(self.shards@[s as int]).contains_key(key@));
                assert(self.has(key@));
                assert(self.slot_of(key@) == slot);
                assert(slot < self.slots@.len());
                let v = self.slots[slot];
                assert(self.view().dom().contains(key@));
                assert(self.view()[key@] == self.slots@[self.slot_of(key@) as int]);
                assert(v == self.view()[key@]);
                Some(v)
            },
            None => None,
        }
    }

    /// Stores `value` as the state of `key`.
    pub fn set(&mut self, key: &str, value: T)
        requires
            old(self).wf(),
        ensures
            final(self).wf(),
            final(self).view() == old(self).view().insert(key@, value),
            final(self).shard_count() == old(self).shard_count(),
    {
        let ghost old_self = *self;
        let s = shard_of(key, self.shards.len());
        match slot_map_get(&self.shards[s], key) {
            Some(slot) => {
                assert(self.has(key@));
                assert(old_self.slot_of(key@) == slot);
                self.slots.set(slot, value);
                assert forall|k: Seq<char>| #[trigger] self.has(k) == old_self.has(k) && (self.has(
                    k,
                ) ==> self.slot_of(k) == old_self.slot_of(k)) by {}
                assert(self.view() =~= old_self.view().insert(key@, value)) by {
                    assert forall|k: Seq<char>| self.has(k) && k != key@ implies self.slots@[self.slot_of(
                        k,
                    ) as int] == old_self.slots@[old_self.slot_of(k) as int] by {
                        assert(old_self.has(k));
                        assert(old_self.has(key@));
                    }
                }
            },
            None => {
                assert(!old_self.has(key@));
                let slot: usize;
                if self.free.len() > 0 {
                    slot = self.free.pop().unwrap();
                    assert(old_self.free@[old_self.free@.len() - 1] == slot);
                    assert(self.free@ =~= old_self.free@.drop_last());
                    self.slots.set(slot, value);
                } else {
                    slot = self.slots.len();
                    self.slots.push(value);
                    assert(self.slots@[slot as int] == value);
                }
                assert(self.slots@[slot as int] == value);
                slot_map_insert(&mut self.shards[s], String::from_str(key), slot);
                proof {
                    self.lemma_after_insert(old_self, key@, slot, value, s as int);
                }
            },
        }
    }

    /// The keys that have an entry, each once, in an unspecified order.
    pub fn keys(&self) -> (res: Vec<String>)
        requires
            self.wf(),
        ensures
            forall|i: int| 0 <= i < res@.len() ==> #[trigger] self.view().contains_key(res@[i]@),
            forall|i: int, j: int|
                0 <= i < res@.len() && 0 <= j < res@.len() && i != j ==> #[trigger] res@[i]@
                    != #[trigger] res@[j]@,
            forall|k: Seq<char>|
                #[trigger] self.view().contains_key(k) ==> exists|i: int|
                    0 <= i < res@.len() && #[trigger] res@[i]@ == k,
    {
        let n = self.shards.len();
        let mut res: Vec<String> = Vec::new();
        let mut s: usize = 0;
        while s < n
            invariant
                self.wf(),
                n == self.shards@.len(),
                s <= n,
                forall|i: int|
                    #![trigger res@[i]] 0 <= i < res@.len() ==> self.has(res@[i]@) && route(
                        res@[i]@,
                        self.shards@.len(),
                    ) < s,
                forall|i: int, j: int|
                    0 <= i < res@.len() && 0 <= j < res@.len() && i != j ==> #[trigger] res@[i]@
                        != #[trigger] res@[j]@,
                forall|k: Seq<char>|
                    #[trigger] self.has(k) && route(k, self.shards@.len()) < s ==> exists|i: int|
                        0 <= i < res@.len() && #[trigger] res@[i]@ == k,
            decreases n - s,
        {
            self.push_shard_keys(s, &mut res);
            s = s + 1;
        }
        proof {
            assert forall|k: Seq<char>| #[trigger] self.view().contains_key(k) implies exists|i: int|
                0 <= i < res@.len() && #[trigger] res@[i]@ == k by {
                assert(self.has(k));
                assert(route(k, self.shards@.len()) < n);
            }
            assert forall|i: int| 0 <= i < res@.len() implies #[trigger] self.view().contains_key(res@[i]@) by {
                assert(self.has(res@[i]@));
            }
        }
        res
    }

    /// Appends the keys held in shard `s` to `res`.
    #[verifier::rlimit(30)]
    fn push_shard_keys(&self, s: usize, res: &mut Vec<String>)
        requires
            self.wf(),
            s < self.shards@.len(),
            forall|i: int|
                #![trigger old(res)@[i]] 0 <= i < old(res)@.len() ==> self.has(old(res)@[i]@) && route(
                    old(res)@[i]@,
                    self.shards@.len(),
                ) < s,
            forall|i: int, j: int|
                0 <= i < old(res)@.len() && 0 <= j < old(res)@.len() && i != j ==> #[trigger] old(res)@[i]@
                    != #[trigger] old(res)@[j]@,
            forall|k: Seq<char>|
                #[trigger] self.has(k) && route(k, self.shards@.len()) < s ==> exists|i: int|
                    0 <= i < old(res)@.len() && #[trigger] old(res)@[i]@ == k,
        ensures
            forall|i: int|
                #![trigger final(res)@[i]] 0 <= i < final(res)@.len() ==> self.has(final(res)@[i]@) && route(
                    final(res)@[i]@,
                    self.shards@.len(),
                ) < s + 1,
            forall|i: int, j: int|
                0 <= i < final(res)@.len() && 0 <= j < final(res)@.len() && i != j ==> #[trigger] final(res)@[i]@
                    != #[trigger] final(res)@[j]@,
            forall|k: Seq<char>|
                #[trigger] self.has(k) && route(k, self.shards@.len()) < s + 1 ==> exists|i: int|
                    0 <= i < final(res)@.len() && #[trigger] final(res)@[i]@ == k,
    {
        let n = self.shards.len();
        let entries = slot_map_entries(&self.shards[s]);
        let ghost prev = res@;
        let mut e: usize = 0;
        while e < entries.len()
            invariant
                self.wf(),
                n == self.shards@.len(),
                s < n,
                e <= entries@.len(),
                prev.len() + e == res@.len(),
                forall|i: int| 0 <= i < prev.len() ==> #[trigger] res@[i] == prev[i],
                forall|i: int| 0 <= i < e ==> #[trigger] res@[prev.len() + i]@ == entries@[i].0@,
                forall|i: int|
                    0 <= i < entries@.len() ==> #[trigger] slot_map_contents(
                        self.shards@[s as int],
                    ).contains_key(entries@[i].0@),
                forall|i: int, j: int|
                    0 <= i < entries@.len() && 0 <= j < entries@.len() && i != j
                        ==> #[trigger] entries@[i].0@ != #[trigger] entries@[j].0@,
                forall|i: int|
                    #![trigger prev[i]] 0 <= i < prev.len() ==> self.has(prev[i]@) && route(
                        prev[i]@,
                        n as nat,
                    ) < s,
                forall|i: int, j: int|
                    0 <= i < prev.len() && 0 <= j < prev.len() && i != j ==> #[trigger] prev[i]@
                        != #[trigger] prev[j]@,
            decreases entries@.len() - e,
        {
            let k = entries[e].0.clone();
            res.push(k);
            e = e + 1;
        }
        proof {
            assert forall|i: int| 0 <= i < res@.len() implies #[trigger] self.has(res@[i]@) && route(
                res@[i]@,
                n as nat,
            ) < s + 1 by {
                if i >= prev.len() {
                    let t = i - prev.len();
                    assert(res@[prev.len() + t]@ == entries@[t].0@);
                    assert(slot_map_contents(self.shards@[s as int]).contains_key(entries@[t].0@));
                } else {
                    assert(res@[i] == prev[i]);
                }
            }
            assert forall|i: int, j: int|
                0 <= i < res@.len() && 0 <= j < res@.len() && i != j implies #[trigger] res@[i]@
                    != #[trigger] res@[j]@ by {
                if i < prev.len() && j < prev.len() {
                    assert(res@[i] == prev[i] && res@[j] == prev[j]);
                } else if i >= prev.len() && j >= prev.len() {
                    assert(res@[prev.len() + (i - prev.len())]@ == entries@[i - prev.len()].0@);
                    assert(res@[prev.len() + (j - prev.len())]@ == entries@[j - prev.len()].0@);
                } else if i < prev.len() {
                    assert(res@[i] == prev[i]);
                    assert(self.has(prev[i]@));
                    let t = j - prev.len();
                    assert(res@[prev.len() + t]@ == entries@[t].0@);
                    assert(slot_map_contents(self.shards@[s as int]).contains_key(entries@[t].0@));
                } else {
                    assert(res@[j] == prev[j]);
                    assert(self.has(prev[j]@));
                    let t = i - prev.len();
                    assert(res@[prev.len() + t]@ == entries@[t].0@);
                    assert(slot_map_contents(self.shards@[s as int]).contains_key(entries@[t].0@));
                }
            }
            assert forall|k: Seq<char>| #[trigger] self.has(k) && route(k, n as nat) < s + 1 implies exists|
                i: int,
            | 0 <= i < res@.len() && #[trigger] res@[i]@ == k by {
                if route(k, n as nat) < s {
                    let i = choose|i: int| 0 <= i < prev.len() && #[trigger] prev[i]@ == k;
                    assert(res@[i] == prev[i]);
                } else {
                    assert(slot_map_contents(self.shards@[s as int]).contains_key(k));
                    let t = choose|t: int| 0 <= t < entries@.len() && #[trigger] entries@[t].0@ == k;
                    assert(res@[prev.len() + t]@ == entries@[t].0@);
                }
            }
        }
    }

    /// Removes the entry of `key`, if any.
    pub fn remove(&mut self, key: &str)
        requires
            old(self).wf(),
        ensures
            final(self).wf(),
            final(self).view() == old(self).view().remove(key@),
            final(self).shard_count() == old(self).shard_count(),
    {
        let ghost old_self = *self;
        let s = shard_of(key, self.shards.len());
        match slot_map_get(&self.shards[s], key) {
            Some(slot) => {
                assert(old_self.has(key@));
                slot_map_remove(&mut self.shards[s], key);
                self.free.push(slot);
                proof {
                    self.lemma_after_remove(old_self, key@, slot, s as int);
                }
            },
            None => {
                assert(!old_self.has(key@));
                assert(old_self.view().remove(key@) =~= old_self.view());
            },
        }
    }

    proof fn lemma_after_remove(self, old_self: Self, key: Seq<char>, slot: usize, s: int)
        requires
            old_self.wf(),
            old_self.has(key),
            old_self.slot_of(key) == slot,
            s == route(key, old_self.shards@.len()),
            0 <= s < old_self.shards@.len(),
            self.shards@ == old_self.shards@.update(s, self.shards@[s]),
            slot_map_contents(self.shards@[s]) == slot_map_contents(old_self.shards@[s]).remove(key),
            self.slots@ == old_self.slots@,
            self.free@ == old_self.free@.push(slot),
        ensures
            self.wf(),
            self.view() == old_self.view().remove(key),
            self.shard_count() == old_self.shard_count(),
    {
        assert forall|k: Seq<char>| #[trigger] self.has(k) == (old_self.has(k) && k != key) && (
        self.has(k) ==> self.slot_of(k) == old_self.slot_of(k)) by {
            if route(k, old_self.shards@.len()) == s {
            } else {
            }
        }
        assert forall|i: int, k: Seq<char>|
            0 <= i < self.shards@.len() && #[trigger] slot_map_contents(self.shards@[i]).contains_key(k)
            implies route(k, self.shards@.len()) == i by {
            assert(slot_map_contents(old_self.shards@[i]).contains_key(k));
        }
        assert forall|k1: Seq<char>, k2: Seq<char>|
            #[trigger] self.has(k1) && #[trigger] self.has(k2) && k1 != k2 implies self.slot_of(k1)
                != self.slot_of(k2) by {
            assert(old_self.has(k1) && old_self.has(k2));
        }
        assert forall|j: int, k: Seq<char>|
            0 <= j < self.free@.len() && #[trigger] self.has(k) implies self.slot_of(k)
                != #[trigger] self.free@[j] by {
            assert(old_self.has(k));
            if j < old_self.free@.len() {
                assert(self.free@[j] == old_self.free@[j]);
            } else {
                assert(old_self.has(key));
            }
        }
        assert forall|i: int, j: int|
            0 <= i < self.free@.len() && 0 <= j < self.free@.len() && i != j implies #[trigger] self.free@[i]
                != #[trigger] self.free@[j] by {
            if i < old_self.free@.len() && j < old_self.free@.len() {
                assert(self.free@[i] == old_self.free@[i]);
                assert(self.free@[j] == old_self.free@[j]);
            } else if i < old_self.free@.len() {
                assert(self.free@[i] == old_self.free@[i]);
                assert(old_self.has(key));
            } else {
                assert(self.free@[j] == old_self.free@[j]);
                assert(old_self.has(key));
            }
        }
        assert forall|j: int| 0 <= j < self.free@.len() implies #[trigger] self.free@[j] < self.slots@.len() by {
            if j < old_self.free@.len() {
                assert(self.free@[j] == old_self.free@[j]);
            } else {
                assert(old_self.has(key));
            }
        }
        assert(self.view() =~= old_self.view().remove(key));
    }

    /// The number of keys that have an entry.
    pub fn len(&self) -> (res: usize)
        requires
            self.wf(),
        ensures
            res == self.view().dom().len(),
            self.view().dom().finite(),
    {
        let keys = self.keys();
        proof {
            let names = keys@.map_values(|s: String| s@);
            assert(names.no_duplicates()) by {
                assert forall|i: int, j: int|
                    0 <= i < names.len() && 0 <= j < names.len() && i != j implies names[i]
                        != names[j] by {
                    assert(names[i] == keys@[i]@ && names[j] == keys@[j]@);
                }
            }
            assert(names.to_set() =~= self.view().dom()) by {
                assert forall|k: Seq<char>| names.to_set().contains(k) implies self.view().dom().contains(
                    k,
                ) by {
                    let i = choose|i: int| 0 <= i < names.len() && names[i] == k;
                    assert(names[i] == keys@[i]@);
                }
                assert forall|k: Seq<char>| self.view().dom().contains(k) implies names.to_set().contains(
                    k,
                ) by {
                    assert(self.view().contains_key(k));
                    let i = choose|i: int| 0 <= i < keys@.len() && #[trigger] keys@[i]@ == k;
                    assert(names[i] == k);
                }
            }
            names.unique_seq_to_set();
            vstd::seq_lib::seq_to_set_is_finite(names);
        }
        keys.len()
    }

    /// Removes every entry that has been idle for at least `ttl` at `now`.
    pub fn evict_idle(&mut self, now: u64, ttl: u64)
        where T: Stamped
        requires
            old(self).wf(),
        ensures
            final(self).wf(),
            final(self).view() == without_idle(old(self).view(), now, ttl),
            final(self).shard_count() == old(self).shard_count(),
    {
        let ghost orig = self.view();
        let keys = self.keys();
        let mut i: usize = 0;
        while i < keys.len()
            invariant
                self.wf(),
                self.shard_count() == old(self).shard_count(),
                orig == old(self).view(),
                i <= keys@.len(),
                forall|j: int| 0 <= j < keys@.len() ==> #[trigger] orig.contains_key(keys@[j]@),
                forall|k: Seq<char>|
                    #[trigger] orig.contains_key(k) ==> exists|j: int|
                        0 <= j < keys@.len() && #[trigger] keys@[j]@ == k,
                forall|j1: int, j2: int|
                    0 <= j1 < keys@.len() && 0 <= j2 < keys@.len() && j1 != j2 ==> #[trigger] keys@[j1]@
                        != #[trigger] keys@[j2]@,
                forall|k: Seq<char>|
                    #[trigger] self.view().contains_key(k) ==> orig.contains_key(k) && self.view()[k]
                        == orig[k],
                forall|k: Seq<char>|
                    #[trigger] orig.contains_key(k) ==> (self.view().contains_key(k) <==> !(
                    is_idle(orig[k].stamp(), now, ttl) && exists|j: int|
                        0 <= j < i && #[trigger] keys@[j]@ == k)),
            decreases keys@.len() - i,
        {
            let ghost before = self.view();
            let key = keys[i].as_str();
            let state = self.get(key);
            match state {
                Some(st) => {
                    if now.saturating_sub(st.last_access()) >= ttl {
                        self.remove(key);
                    }
                },
                None => {},
            }
            proof {
                assert(orig.contains_key(keys@[i as int]@));
                assert forall|k: Seq<char>| #[trigger] orig.contains_key(k) implies (
                self.view().contains_key(k) <==> !(is_idle(orig[k].stamp(), now, ttl) && exists|
                    j: int,
                | 0 <= j < i + 1 && #[trigger] keys@[j]@ == k)) by {
                    if k == keys@[i as int]@ {
                        if is_idle(orig[k].stamp(), now, ttl) {
                            assert(0 <= i < i + 1 && keys@[i as int]@ == k);
                        }
                        if !before.contains_key(k) {
                            let j = choose|j: int| 0 <= j < i && #[trigger] keys@[j]@ == k;
                            assert(keys@[j]@ == keys@[i as int]@);
                        }
                    } else {
                        if exists|j: int| 0 <= j < i + 1 && #[trigger] keys@[j]@ == k {
                            let j = choose|j: int| 0 <= j < i + 1 && #[trigger] keys@[j]@ == k;
                            assert(j != i);
                            assert(0 <= j < i && keys@[j]@ == k);
                        }
                    }
                }
            }
            i = i + 1;
        }
        proof {
            assert(self.view() =~= without_idle(orig, now, ttl)) by {
                assert forall|k: Seq<char>| #[trigger] orig.contains_key(k) && is_idle(
                    orig[k].stamp(),
                    now,
                    ttl,
                ) implies !self.view().contains_key(k) by {
                    let j = choose|j: int| 0 <= j < keys@.len() && #[trigger] keys@[j]@ == k;
                    assert(0 <= j < i && keys@[j]@ == k);
                }
            }
        }
    }

    proof fn lemma_after_insert(self, old_self: Self, key: Seq<char>, slot: usize, value: T, s: int)
        requires
            old_self.wf(),
            !old_self.has(key),
            s == route(key, old_self.shards@.len()),
            0 <= s < old_self.shards@.len(),
            self.shards@ == old_self.shards@.update(
                s,
                self.shards@[s],
            ),
            slot_map_contents(self.shards@[s]) == slot_map_contents(old_self.shards@[s]).insert(
                key,
                slot,
            ),
            (slot as int) < self.slots@.len(),
            self.slots@[slot as int] == value,
            forall|j: int| 0 <= j < old_self.slots@.len() && j != slot ==> #[trigger] self.slots@[j] == old_self.slots@[j],
            old_self.slots@.len() <= self.slots@.len() <= old_self.slots@.len() + 1,
            self.slots@.len() == old_self.slots@.len() + 1 ==> slot == old_self.slots@.len() && self.free@ == old_self.free@,
            self.slots@.len() == old_self.slots@.len() ==> old_self.free@.len() > 0 && slot == old_self.free@.last() && self.free@ == old_self.free@.drop_last(),
        ensures
            self.wf(),
            self.view() == old_self.view().insert(key, value),
            self.shard_count() == old_self.shard_count(),
    {
        assert forall|k: Seq<char>| #[trigger] self.has(k) == (old_self.has(k) || k == key) && (
        self.has(k) ==> self.slot_of(k) == (if k == key {
            slot
        } else {
            old_self.slot_of(k)
        })) by {
            if route(k, old_self.shards@.len()) == s {
            } else {
            }
        }
        assert forall|k: Seq<char>| #[trigger] old_self.has(k) implies old_self.slot_of(k) != slot by {
            if self.slots@.len() == old_self.slots@.len() {
                assert(old_self.free@[old_self.free@.len() - 1] == slot);
            }
        }
        assert forall|i: int, k: Seq<char>|
            0 <= i < self.shards@.len() && #[trigger] slot_map_contents(self.shards@[i]).contains_key(k)
            implies route(k, self.shards@.len()) == i by {
            if i == s {
                if k != key {
                    assert(slot_map_contents(old_self.shards@[i]).contains_key(k));
                }
            } else {
                assert(slot_map_contents(old_self.shards@[i]).contains_key(k));
            }
        }
        assert forall|k1: Seq<char>, k2: Seq<char>|
            #[trigger] self.has(k1) && #[trigger] self.has(k2) && k1 != k2 implies self.slot_of(k1)
                != self.slot_of(k2) by {
            if k1 != key && k2 != key {
                assert(old_self.has(k1) && old_self.has(k2));
            } else if k1 == key {
                assert(old_self.has(k2));
            } else {
                assert(old_self.has(k1));
            }
        }
        assert forall|j: int, k: Seq<char>|
            0 <= j < self.free@.len() && #[trigger] self.has(k) implies self.slot_of(k)
                != #[trigger] self.free@[j] by {
            assert(self.free@[j] == old_self.free@[j]);
            if k == key {
                if self.slots@.len() == old_self.slots@.len() {
                    assert(old_self.free@[old_self.free@.len() - 1] == slot);
                    assert(j != old_self.free@.len() - 1);
                } else {
                    assert(old_self.free@[j] < old_self.slots@.len());
                }
            } else {
                assert(old_self.has(k));
            }
        }
        assert forall|i: int, j: int|
            0 <= i < self.free@.len() && 0 <= j < self.free@.len() && i != j implies #[trigger] self.free@[i]
                != #[trigger] self.free@[j] by {
            assert(self.free@[i] == old_self.free@[i]);
            assert(self.free@[j] == old_self.free@[j]);
        }
        assert forall|j: int| 0 <= j < self.free@.len() implies #[trigger] self.free@[j] < self.slots@.len() by {
            assert(self.free@[j] == old_self.free@[j]);
        }
        assert(self.view() =~= old_self.view().insert(key, value)) by {
            assert forall|k: Seq<char>| self.has(k) && k != key implies self.slots@[self.slot_of(k) as int]
                == old_self.slots@[old_self.slot_of(k) as int] by {
                assert(old_self.has(k));
            }
        }
    }
}

} // verus!
