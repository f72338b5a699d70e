//! Clearing the screen: what `cls` does to each drawn thing. A drawn thing that
//! can be drawn again the same way (it has a hash) is hidden and cached instead
//! of despawned, and lives on for its time-to-live more clears.
use vstd::prelude::*;
use vstd::multiset::Multiset;

use mashmap::MashMap;

use crate::plan::{AppPlan, Schedule, Setup};

verus! {

/// Counts draws, to order drawn things; it wraps around, and notes when it has.
#[derive(Debug)]
pub struct DrawCounter {
    counter: usize,
    overflowed: bool,
}

impl DrawCounter {
    pub closed spec fn count(&self) -> usize {
        self.counter
    }

    pub closed spec fn has_overflowed(&self) -> bool {
        self.overflowed
    }

    /// A counter at `initial`, not overflowed.
    pub fn new(initial: usize) -> (r: DrawCounter)
        ensures
            r.count() == initial,
            !r.has_overflowed(),
    {
        DrawCounter { counter: initial, overflowed: false }
    }

    /// Increments the counter (wrapping) and returns the previous value; a
    /// previous value of zero marks the counter as overflowed.
    pub fn increment(&mut self) -> (r: usize)
        ensures
            r == old(self).count(),
            final(self).count() == if old(self).count() == usize::MAX {
                0
            } else {
                (old(self).count() + 1) as usize
            },
            final(self).has_overflowed() == (old(self).has_overflowed() || r == 0),
    {
        let r = self.counter;
        self.counter = if r == usize::MAX {
            0
        } else {
            r + 1
        };
        if r == 0 {
            self.overflowed = true;
        }
        r
    }

    /// Whether the counter has wrapped around since the last reset.
    pub fn overflowed(&self) -> (r: bool)
        ensures
            r == self.has_overflowed(),
    {
        self.overflowed
    }

    /// Forgets that the counter wrapped around.
    pub fn reset_overflowed(&mut self)
        ensures
            final(self).count() == old(self).count(),
            !final(self).has_overflowed(),
    {
        self.overflowed = false;
    }

    /// The current value.
    pub fn get(&self) -> (r: usize)
        ensures
            r == self.count(),
    {
        self.counter
    }

    /// Sets the current value.
    pub fn set(&mut self, value: usize)
        ensures
            final(self).count() == value,
            final(self).has_overflowed() == old(self).has_overflowed(),
    {
        self.counter = value;
    }
}

impl Default for DrawCounter {
    fn default() -> (r: DrawCounter)
        ensures
            r.count() == 1,
            !r.has_overflowed(),
    {
        DrawCounter::new(1)
    }
}

/// Whether a drawn thing is shown, or hidden in the cache with some clears to live.
#[derive(Debug, Clone, Copy, PartialEq, Eq, Structural)]
pub enum ClearState {
    Visible,
    Hidden { time_to_live: u8 },
}

impl ClearState {
    /// Decrements the time to live (not below zero) and returns its previous
    /// value, or `None` when visible.
    pub fn decrement_ttl(&mut self) -> (r: Option<u8>)
        ensures
            match *old(self) {
                ClearState::Visible => r is None && *final(self) == ClearState::Visible,
                ClearState::Hidden { time_to_live } => r == Some(time_to_live) && *final(self)
                    == ClearState::Hidden {
                    time_to_live: if time_to_live == 0 {
                        0
                    } else {
                        (time_to_live - 1) as u8
                    },
                },
            },
    {
        match self {
            ClearState::Visible => None,
            ClearState::Hidden { time_to_live } => {
                let last_ttl = *time_to_live;
                *time_to_live = if last_ttl == 0 {
                    0
                } else {
                    last_ttl - 1
                };
                Some(last_ttl)
            },
        }
    }
}

/// A drawn thing that `cls` clears.
#[derive(Debug, Clone, Copy, PartialEq, Eq, Structural)]
pub struct Clearable {
    pub draw_count: usize,
    pub time_to_live: u8,
    pub hash: Option<u64>,
    pub state: ClearState,
}

impl Clearable {
    /// A visible drawn thing, without a hash, numbered by the draw counter.
    pub fn new(time_to_live: u8, counter: &mut DrawCounter) -> (r: Clearable)
        ensures
            r == (Clearable {
                draw_count: old(counter).count(),
                time_to_live,
                hash: None,
                state: ClearState::Visible,
            }),
            final(counter).count() == if old(counter).count() == usize::MAX {
                0
            } else {
                (old(counter).count() + 1) as usize
            },
            final(counter).has_overflowed() == (old(counter).has_overflowed() || old(counter).count() == 0),
    {
        Clearable {
            draw_count: counter.increment(),
            time_to_live,
            hash: None,
            state: ClearState::Visible,
        }
    }

    /// Whether it is hidden in the cache.
    pub fn is_cached(&self) -> (r: bool)
        ensures
            r == !(self.state is Visible),
    {
        match self.state {
            ClearState::Visible => false,
            _ => true,
        }
    }

    /// Hides a visible thing, with its time to live; returns whether it was visible.
    pub fn mark_cached(&mut self) -> (r: bool)
        ensures
            r == (old(self).state is Visible),
            *final(self) == if r {
                Clearable {
                    state: ClearState::Hidden { time_to_live: old(self).time_to_live },
                    ..*old(self)
                }
            } else {
                *old(self)
            },
    {
        if !self.is_cached() {
            self.state = ClearState::Hidden { time_to_live: self.time_to_live };
            true
        } else {
            false
        }
    }

    /// The same thing with a hash, which makes it cacheable.
    pub fn with_hash(self, hash: u64) -> (r: Clearable)
        ensures
            r == (Clearable { hash: Some(hash), ..self }),
    {
        Clearable { hash: Some(hash), ..self }
    }

    /// Shows it again, numbered by the draw counter.
    pub fn resurrect(&mut self, counter: &mut DrawCounter)
        ensures
            *final(self) == (Clearable {
                state: ClearState::Visible,
                draw_count: old(counter).count(),
                ..*old(self)
            }),
            final(counter).count() == if old(counter).count() == usize::MAX {
                0
            } else {
                (old(counter).count() + 1) as usize
            },
            final(counter).has_overflowed() == (old(counter).has_overflowed() || old(counter).count() == 0),
    {
        self.state = ClearState::Visible;
        self.draw_count = counter.increment();
    }
}

/// After the draw counter wrapped around, every drawn thing's draw count
/// becomes zero and the counter forgets the overflow; otherwise nothing changes.
pub fn handle_overflow(counter: &mut DrawCounter, clearables: &mut Vec<Clearable>)
    ensures
        final(clearables)@.len() == old(clearables)@.len(),
        final(counter).count() == old(counter).count(),
        !final(counter).has_overflowed(),
        forall|i: int|
            0 <= i < old(clearables)@.len() ==> #[trigger] final(clearables)@[i] == if old(
                counter,
            ).has_overflowed() {
                Clearable { draw_count: 0, ..old(clearables)@[i] }
            } else {
                old(clearables)@[i]
            },
{
    if counter.overflowed() {
        let mut i: usize = 0;
        while i < clearables.len()
            invariant
                i <= clearables@.len(),
                clearables@.len() == old(clearables)@.len(),
                forall|j: int|
                    0 <= j < clearables@.len() ==> #[trigger] clearables@[j] == if j < i {
                        Clearable { draw_count: 0, ..old(clearables)@[j] }
                    } else {
                        old(clearables)@[j]
                    },
            decreases clearables@.len() - i,
        {
            let mut c = clearables[i];
            c.draw_count = 0;
            clearables.set(i, c);
            i = i + 1;
        }
        counter.reset_overflowed();
    }
}

/// A multimap of the `mashmap` crate from hashes to entity ids: a key may hold
/// several values. It is kept in a private field: `mash_entries` names its
/// entries, and the `mash_*` functions below are the only way in.
#[verifier::external_body]
pub struct EntityMultimap {
    map: MashMap<u64, u64>,
}

/// The (key, value) entries of the multimap.
pub uninterp spec fn mash_entries(m: EntityMultimap) -> Multiset<(u64, u64)>;

/// Calls `MashMap::new`: an empty multimap.
#[verifier::external_body]
fn mash_new() -> (r: EntityMultimap)
    ensures
        mash_entries(r) == Multiset::<(u64, u64)>::empty(),
{
    EntityMultimap { map: MashMap::new() }
}

/// Calls `MashMap::insert`: adds one entry (a key may hold the same value twice).
#[verifier::external_body]
fn mash_insert(m: &mut EntityMultimap, key: u64, value: u64)
    ensures
        mash_entries(*final(m)) == mash_entries(*old(m)).insert((key, value)),
{
    m.map.insert(key, value);
}

/// Calls `MashMap::remove_one`: removes one entry of the key and returns its
/// value, or `None` when the key holds none. Which one is left open.
#[verifier::external_body]
fn mash_remove_one(m: &mut EntityMultimap, key: u64) -> (r: Option<u64>)
    ensures
        match r {
            Some(v) => mash_entries(*old(m)).count((key, v)) > 0 && mash_entries(*final(m))
                == mash_entries(*old(m)).remove((key, v)),
            None => (forall|v: u64| mash_entries(*old(m)).count((key, v)) == 0) && mash_entries(
                *final(m),
            ) == mash_entries(*old(m)),
        },
{
    m.map.remove_one(&key)
}

/// Whether an entry's value is the given entity.
fn is_entity(v: &u64, id: u64) -> (r: bool)
    ensures
        r == (*v == id),
{
    *v == id
}

/// Calls `MashMap::drain_key_if` with the values equal to `value` and takes
/// the first drained value; dropping the drain removes every such entry.
/// Returns whether there was one.
#[verifier::external_body]
fn mash_drain_entry(m: &mut EntityMultimap, key: u64, value: u64) -> (r: bool)
    ensures
        r == (mash_entries(*old(m)).count((key, value)) > 0),
        forall|e: (u64, u64)|
            #[trigger] mash_entries(*final(m)).count(e) == if e == (key, value) {
                0
            } else {
                mash_entries(*old(m)).count(e)
            },
{
    m.map.drain_key_if(&key, |v| is_entity(v, value)).next().is_some()
}

/// The cache of hidden drawn things: their entity ids by their hash.
pub struct ClearCache {
    map: EntityMultimap,
}

impl ClearCache {
    /// The (hash, entity) entries.
    pub closed spec fn entries(&self) -> Multiset<(u64, u64)> {
        mash_entries(self.map)
    }

    /// An empty cache.
    pub fn new() -> (r: ClearCache)
        ensures
            r.entries() == Multiset::<(u64, u64)>::empty(),
    {
        ClearCache { map: mash_new() }
    }

    /// Caches a visible drawn thing under its hash; without a hash nothing
    /// changes. Returns whether it was cached.
    pub fn insert(&mut self, clearable: &Clearable, id: u64) -> (r: bool)
        requires
            clearable.state is Visible,
        ensures
            match clearable.hash {
                Some(hash) => r && final(self).entries() == old(self).entries().insert((hash, id)),
                None => !r && final(self).entries() == old(self).entries(),
            },
    {
        match clearable.hash {
            Some(hash) => {
                mash_insert(&mut self.map, hash, id);
                true
            },
            None => false,
        }
    }

    /// Takes one cached entity with this hash out of the cache, if there is one.
    pub fn take(&mut self, hash: u64) -> (r: Option<u64>)
        ensures
            match r {
                Some(id) => old(self).entries().count((hash, id)) > 0 && final(self).entries()
                    == old(self).entries().remove((hash, id)),
                None => (forall|id: u64| old(self).entries().count((hash, id)) == 0)
                    && final(self).entries() == old(self).entries(),
            },
    {
        mash_remove_one(&mut self.map, hash)
    }

    /// Removes every entry of this entity under the drawn thing's hash; returns
    /// whether there was one (never, without a hash).
    pub fn remove(&mut self, clearable: &Clearable, id: u64) -> (r: bool)
        ensures
            match clearable.hash {
                Some(hash) => r == (old(self).entries().count((hash, id)) > 0) && forall|e: (
                    u64,
                    u64,
                )|
                    #[trigger] final(self).entries().count(e) == if e == (hash, id) {
                        0
                    } else {
                        old(self).entries().count(e)
                    },
                None => !r && final(self).entries() == old(self).entries(),
            },
    {
        match clearable.hash {
            Some(hash) => mash_drain_entry(&mut self.map, hash, id),
            None => false,
        }
    }
}

/// What `cls` does to one drawn thing.
#[derive(Debug, Clone, Copy, PartialEq, Eq, Structural)]
pub enum ClearAction {
    /// Despawn it.
    Despawn,
    /// Keep it hidden: it has clears to live.
    Keep,
    /// Hide it: it is now cached.
    Hide,
}

/// `cls` on one drawn thing with entity id `id`: a hidden one counts down and
/// is despawned when its time to live was zero; a visible one is despawned
/// unless it has a time to live and a hash, in which case it is hidden and cached.
pub fn clear_one(clearable: &mut Clearable, cache: &mut ClearCache, id: u64) -> (r: ClearAction)
    ensures
        match old(clearable).state {
            ClearState::Hidden { time_to_live } => {
                &&& r == if time_to_live == 0 {
                    ClearAction::Despawn
                } else {
                    ClearAction::Keep
                }
                &&& *final(clearable) == Clearable {
                    state: ClearState::Hidden {
                        time_to_live: if time_to_live == 0 {
                            0
                        } else {
                            (time_to_live - 1) as u8
                        },
                    },
                    ..*old(clearable)
                }
                &&& final(cache).entries() == old(cache).entries()
            },
            ClearState::Visible => if old(clearable).time_to_live == 0 || old(clearable).hash is None {
                &&& r == ClearAction::Despawn
                &&& *final(clearable) == *old(clearable)
                &&& final(cache).entries() == old(cache).entries()
            } else {
                &&& r == ClearAction::Hide
                &&& *final(clearable) == Clearable {
                    state: ClearState::Hidden { time_to_live: old(clearable).time_to_live },
                    ..*old(clearable)
                }
                &&& final(cache).entries() == old(cache).entries().insert(
                    (old(clearable).hash->0, id),
                )
            },
        },
{
    match clearable.state.decrement_ttl() {
        Some(0) => ClearAction::Despawn,
        Some(_) => ClearAction::Keep,
        None => {
            if clearable.time_to_live == 0 || clearable.hash.is_none() {
                ClearAction::Despawn
            } else {
                let inserted = cache.insert(clearable, id);
                let marked = clearable.mark_cached();
                assert(inserted && marked);
                ClearAction::Hide
            }
        },
    }
}

/// A thing cached under a hash can be taken back by that hash.
pub proof fn lemma_take_after_insert(entries: Multiset<(u64, u64)>, hash: u64, id: u64)
    ensures
        entries.insert((hash, id)).count((hash, id)) > 0,
        !(forall|v: u64| entries.insert((hash, id)).count((hash, v)) == 0),
{
    assert(entries.insert((hash, id)).count((hash, id)) > 0);
}

/// Removing an entity from the cache leaves none of its entries under that hash.
pub proof fn lemma_remove_clears(
    before: Multiset<(u64, u64)>,
    after: Multiset<(u64, u64)>,
    hash: u64,
    id: u64,
)
    requires
        forall|e: (u64, u64)|
            #[trigger] after.count(e) == if e == (hash, id) {
                0
            } else {
                before.count(e)
            },
    ensures
        after.count((hash, id)) == 0,
        forall|e: (u64, u64)| e != (hash, id) ==> #[trigger] after.count(e) == before.count(e),
{
    assert(after.count((hash, id)) == 0);
}

/// The outcome of `clear_one` on a drawn thing, as a spec.
pub open spec fn clear_one_spec(c: Clearable) -> (ClearAction, Clearable) {
    match c.state {
        ClearState::Hidden { time_to_live } => (
            if time_to_live == 0 {
                ClearAction::Despawn
            } else {
                ClearAction::Keep
            },
            Clearable {
                state: ClearState::Hidden {
                    time_to_live: if time_to_live == 0 {
                        0
                    } else {
                        (time_to_live - 1) as u8
                    },
                },
                ..c
            },
        ),
        ClearState::Visible => if c.time_to_live == 0 || c.hash is None {
            (ClearAction::Despawn, c)
        } else {
            (ClearAction::Hide, Clearable { state: ClearState::Hidden { time_to_live: c.time_to_live }, ..c })
        },
    }
}

/// The cache entries that clearing the things `items` adds, in order.
pub open spec fn cached_by_clear(items: Seq<(u64, Clearable)>) -> Multiset<(u64, u64)>
    decreases items.len(),
{
    if items.len() == 0 {
        Multiset::empty()
    } else {
        let (id, c) = items.last();
        let rest = cached_by_clear(items.drop_last());
        if clear_one_spec(c).0 == ClearAction::Hide {
            rest.insert((c.hash->0, id))
        } else {
            rest
        }
    }
}

/// `cls` on every drawn thing (entity id and state): what to do with each, in
/// order; the cache gains the things that are hidden now, and the draw
/// counter restarts at one.
pub fn clear_screen(items: &mut Vec<(u64, Clearable)>, cache: &mut ClearCache, counter: &mut DrawCounter) -> (r: Vec<ClearAction>)
    ensures
        r@.len() == old(items)@.len(),
        final(items)@.len() == old(items)@.len(),
        forall|i: int| 0 <= i < old(items)@.len() ==> {
            &&& #[trigger] r@[i] == clear_one_spec(old(items)@[i].1).0
            &&& final(items)@[i] == (old(items)@[i].0, clear_one_spec(old(items)@[i].1).1)
        },
        final(cache).entries() == old(cache).entries().add(cached_by_clear(old(items)@)),
        final(counter).count() == 1,
        final(counter).has_overflowed() == old(counter).has_overflowed(),
{
    let mut actions: Vec<ClearAction> = Vec::new();
    let mut i: usize = 0;
    while i < items.len()
        invariant
            i <= items@.len(),
            items@.len() == old(items)@.len(),
            actions@.len() == i,
            forall|j: int| 0 <= j < i ==> {
                &&& #[trigger] actions@[j] == clear_one_spec(old(items)@[j].1).0
                &&& items@[j] == (old(items)@[j].0, clear_one_spec(old(items)@[j].1).1)
            },
            forall|j: int| i <= j < items@.len() ==> #[trigger] items@[j] == old(items)@[j],
            cache.entries() == old(cache).entries().add(cached_by_clear(old(items)@.take(i as int))),
        decreases items@.len() - i,
    {
        let (id, c) = items[i];
        let mut c2 = c;
        let a = clear_one(&mut c2, cache, id);
        items.set(i, (id, c2));
        actions.push(a);
        proof {
            assert(old(items)@.take(i + 1).drop_last() =~= old(items)@.take(i as int));
            assert(old(items)@.take(i + 1).last() == old(items)@[i as int]);
            if a == ClearAction::Hide {
                assert(old(cache).entries().add(cached_by_clear(old(items)@.take(i as int))).insert((c.hash->0, id))
                    =~= old(cache).entries().add(cached_by_clear(old(items)@.take(i as int)).insert((c.hash->0, id))));
            }
        }
        i = i + 1;
    }
    proof {
        assert(old(items)@.take(old(items)@.len() as int) =~= old(items)@);
    }
    counter.set(1);
    actions
}

/// A drawn thing after `n` clears (its cache left aside).
pub open spec fn after_clears(c: Clearable, n: nat) -> Clearable
    decreases n,
{
    if n == 0 {
        c
    } else {
        clear_one_spec(after_clears(c, (n - 1) as nat)).1
    }
}

/// A thing hidden with `t` clears to live is kept through `t` clears and
/// despawned on the next: after `k <= t` clears it is hidden with `t - k` left.
pub proof fn lemma_hidden_lives_its_time(c: Clearable, k: nat)
    requires
        c.state matches ClearState::Hidden { time_to_live } && k <= time_to_live,
    ensures
        ({
            let t = c.state->time_to_live;
            &&& after_clears(c, k).state == ClearState::Hidden { time_to_live: (t - k) as u8 }
            &&& k < t ==> clear_one_spec(after_clears(c, k)).0 == ClearAction::Keep
            &&& k == t ==> clear_one_spec(after_clears(c, k)).0 == ClearAction::Despawn
        }),
    decreases k,
{
    if k > 0 {
        lemma_hidden_lives_its_time(c, (k - 1) as nat);
    }
}

/// A visible thing with a hash and a time to live `t` is hidden by one clear,
/// kept through `t` more, and despawned on the clear after.
pub proof fn lemma_cached_lifetime(c: Clearable)
    requires
        c.state is Visible,
        c.hash is Some,
        c.time_to_live > 0,
    ensures
        clear_one_spec(c).0 == ClearAction::Hide,
        clear_one_spec(c).1.state == (ClearState::Hidden { time_to_live: c.time_to_live }),
        clear_one_spec(after_clears(clear_one_spec(c).1, c.time_to_live as nat)).0 == ClearAction::Despawn,
{
    lemma_hidden_lives_its_time(clear_one_spec(c).1, c.time_to_live as nat);
}

/// The registrations of clearing: the drawn-thing type, the clear message, the
/// cache, the overflow check at the end of each frame, and the clear observer.
pub fn plugin(app: &mut AppPlan)
    ensures
        final(app).same_features(*old(app)),
        final(app).steps@ == old(app).steps@ + seq![
            Setup::Reflect("Clearable"),
            Setup::Message("ClearEvent"),
            Setup::Resource("ClearCache"),
            Setup::System(Schedule::Last, "handle_overflow"),
            Setup::Observer("handle_clear_event"),
        ],
{
    app.add(Setup::Reflect("Clearable"));
    app.add(Setup::Message("ClearEvent"));
    app.add(Setup::Resource("ClearCache"));
    app.add(Setup::System(Schedule::Last, "handle_overflow"));
    app.add(Setup::Observer("handle_clear_event"));
}

} // verus!
