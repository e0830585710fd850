use vstd::prelude::*;
use tokio_bus::Bus as Broadcaster;
use tokio_bus::BusReader;

verus! {

/// `tokio_bus::Bus`, the bounded broadcaster, carried opaquely.
#[verifier::external_type_specification]
#[verifier::external_body]
#[verifier::reject_recursive_types(T)]
pub struct ExBroadcaster<T: Clone + Sync>(Broadcaster<T>);

/// `tokio_bus::BusReader`, one subscription, carried opaquely.
#[verifier::external_type_specification]
#[verifier::external_body]
#[verifier::reject_recursive_types(T)]
pub struct ExSubscription<T: Clone + Sync>(BusReader<T>);

/// A subscription to a bus: it sees the messages published after it was
/// made, in order.
pub type Reader<T> = BusReader<T>;

/// How many messages the broadcaster holds for its slowest subscriber.
pub const CAPACITY: usize = 1024;

/// Relies on `tokio_bus::Bus::new`, which makes a broadcaster that buffers
/// `len` messages; `bus::Bus::new` beneath it adds one to `len`.
#[verifier::external_body]
fn new_broadcaster<T: Clone + Sync>(len: usize) -> Broadcaster<T>
    requires
        len < usize::MAX,
{
    Broadcaster::new(len)
}

/// Relies on `tokio_bus::Bus::try_broadcast`: it never blocks, and where the
/// buffer is full it hands the message back unchanged.
#[verifier::external_body]
fn try_broadcast<T: Clone + Sync>(b: &mut Broadcaster<T>, val: T) -> (r: Result<(), T>)
    ensures
        r matches Err(v) ==> v == val,
{
    b.try_broadcast(val)
}

/// Relies on `tokio_bus::Bus::add_rx`: a reader of the messages broadcast
/// from now on.
#[verifier::external_body]
fn add_reader<T: Clone + Sync>(b: &mut Broadcaster<T>) -> Reader<T> {
    b.add_rx()
}

/// A value that can travel on a bus.
pub trait Message: Clone + Sync + Send + Sized {
    /// The kind under which the latest value of this sort is cached, if any.
    spec fn cache_id(&self) -> Option<Seq<char>>;

    /// The kind under which the latest value of this sort is cached, if any.
    fn id(&self) -> (r: Option<&'static str>)
        ensures
            match r {
                Some(s) => self.cache_id() == Some(s@),
                None => self.cache_id() is None,
            },
    ;
}

/// The cache after publishing `m`: it now holds `m` under its kind, if it
/// has one.
pub open spec fn cache_step<T: Message>(cache: Map<Seq<char>, T>, m: T) -> Map<Seq<char>, T> {
    match m.cache_id() {
        Some(id) => cache.insert(id, m),
        None => cache,
    }
}

/// The cache after publishing each of `ms` in turn on a fresh bus.
pub open spec fn cache_after<T: Message>(ms: Seq<T>) -> Map<Seq<char>, T>
    decreases ms.len(),
{
    if ms.len() == 0 {
        Map::empty()
    } else {
        cache_step(cache_after(ms.drop_last()), ms.last())
    }
}

/// The map that a list of cached entries stands for.
pub open spec fn to_map<T>(s: Seq<(Seq<char>, T)>) -> Map<Seq<char>, T>
    decreases s.len(),
{
    if s.len() == 0 {
        Map::empty()
    } else {
        to_map(s.drop_last()).insert(s.last().0, s.last().1)
    }
}

/// No kind is cached twice.
pub open spec fn ids_unique<T>(s: Seq<(Seq<char>, T)>) -> bool {
    forall|i: int, j: int| 0 <= i < j < s.len() ==> s[i].0 != s[j].0
}

/// Replacing the entry of a kind held once changes the map at that kind.
proof fn lemma_to_map_update<T>(s: Seq<(Seq<char>, T)>, i: int, v: T)
    requires
        ids_unique(s),
        0 <= i < s.len(),
    ensures
        to_map(s.update(i, (s[i].0, v))) == to_map(s).insert(s[i].0, v),
    decreases s.len(),
{
    let t = s.update(i, (s[i].0, v));
    if i == s.len() - 1 {
        assert(t.drop_last() =~= s.drop_last());
        assert(to_map(t) =~= to_map(s).insert(s[i].0, v));
    } else {
        assert(t.drop_last() =~= s.drop_last().update(i, (s[i].0, v)));
        lemma_to_map_update(s.drop_last(), i, v);
        assert(s.last().0 != s[i].0);
        assert(to_map(t) =~= to_map(s).insert(s[i].0, v));
    }
}

/// The map holds as many kinds as the list has entries, and each entry.
proof fn lemma_to_map_entries<T>(s: Seq<(Seq<char>, T)>)
    requires
        ids_unique(s),
    ensures
        to_map(s).dom().finite(),
        to_map(s).dom().len() == s.len(),
        forall|i: int| 0 <= i < s.len() ==> #[trigger] to_map(s).contains_key(s[i].0) && to_map(s)[s[i].0]
            == s[i].1,
        forall|k: Seq<char>| #[trigger] to_map(s).contains_key(k) ==> exists|i: int| 0 <= i < s.len() && s[i].0 == k,
    decreases s.len(),
{
    if s.len() > 0 {
        let t = s.drop_last();
        lemma_to_map_entries(t);
        assert(forall|i: int| 0 <= i < t.len() ==> t[i] == s[i]);
        assert(!to_map(t).contains_key(s.last().0));
        assert forall|k: Seq<char>| #[trigger] to_map(s).contains_key(k) implies exists|i: int|
            0 <= i < s.len() && s[i].0 == k by {
            if k != s.last().0 {
                let i = choose|i: int| 0 <= i < t.len() && t[i].0 == k;
                assert(s[i].0 == k);
            } else {
                assert(s[s.len() - 1].0 == k);
            }
        }
    }
}

/// Publishing with a cache of the latest value of each kind of message.
///
/// Every message goes to the broadcaster, which never makes the publisher
/// wait: where its buffer is full the message is dropped for the
/// subscribers. A message with a kind also replaces the cached value of
/// that kind.
#[verifier::reject_recursive_types(T)]
pub struct Bus<T: Message> {
    broadcaster: Broadcaster<T>,
    latest: Vec<(String, T)>,
}

impl<T: Message> Bus<T> {
    /// The cached entries, one per kind, in the order in which each kind
    /// first appeared.
    pub closed spec fn entries(&self) -> Seq<(Seq<char>, T)> {
        self.latest@.map_values(|e: (String, T)| (e.0@, e.1))
    }

    /// The latest value of each kind of message published so far.
    pub open spec fn cache(&self) -> Map<Seq<char>, T> {
        to_map(self.entries())
    }

    pub open spec fn wf(&self) -> bool {
        ids_unique(self.entries())
    }

    /// A bus with an empty cache and no subscribers.
    pub fn new() -> (r: Self)
        ensures
            r.wf(),
            r.entries() == Seq::<(Seq<char>, T)>::empty(),
            r.cache() == Map::<Seq<char>, T>::empty(),
    {
        let r = Bus { broadcaster: new_broadcaster(CAPACITY), latest: Vec::new() };
        assert(r.entries() =~= Seq::<(Seq<char>, T)>::empty());
        r
    }

    /// Publish `m`: cache it under its kind, if it has one, then hand it to
    /// every subscriber without waiting. Returns whether the broadcaster
    /// took it; where it was full, the subscribers miss this message.
    pub fn send(&mut self, m: T) -> (r: bool)
        requires
            old(self).wf(),
        ensures
            final(self).wf(),
            final(self).cache() == cache_step(old(self).cache(), m),
    {
        let copy = m.clone();
        match m.id() {
            Some(id) => self.remember(id, m),
            None => {},
        }
        match try_broadcast(&mut self.broadcaster, copy) {
            Ok(()) => true,
            Err(_) => false,
        }
    }

    fn remember(&mut self, id: &str, m: T)
        requires
            old(self).wf(),
        ensures
            final(self).wf(),
            final(self).cache() == old(self).cache().insert(id@, m),
    {
        let key = id.to_owned();
        let ghost before = self.entries();
        let mut i: usize = 0;
        while i < self.latest.len()
            invariant
                i <= self.latest.len(),
                self.entries() == before,
                ids_unique(before),
                key@ == id@,
                before == old(self).entries(),
                forall|j: int| 0 <= j < i ==> before[j].0 != id@,
            decreases self.latest.len() - i,
        {
            if self.latest[i].0 == key {
                assert(before[i as int].0 == id@);
                self.latest.set(i, (key, m));
                proof {
                    assert(self.entries() =~= before.update(i as int, (before[i as int].0, m)));
                    lemma_to_map_update(before, i as int, m);
                }
                return ;
            }
            i = i + 1;
        }
        self.latest.push((key, m));
        assert(self.entries() =~= before.push((id@, m)));
        assert(before.push((id@, m)).drop_last() =~= before);
    }

    /// A copy of every cached value, one per kind.
    pub fn latest(&self) -> (r: Vec<T>)
        requires
            self.wf(),
        ensures
            r@.len() == self.cache().dom().len(),
            r@.len() == self.entries().len(),
            forall|i: int| 0 <= i < r@.len() ==> cloned(self.entries()[i].1, #[trigger] r@[i]),
            forall|i: int|
                0 <= i < r@.len() ==> self.cache().contains_key(#[trigger] self.entries()[i].0)
                    && self.cache()[self.entries()[i].0] == self.entries()[i].1,
            forall|k: Seq<char>| #[trigger]
                self.cache().contains_key(k) ==> exists|i: int|
                    0 <= i < r@.len() && self.entries()[i].0 == k,
    {
        proof {
            lemma_to_map_entries(self.entries());
        }
        let mut r: Vec<T> = Vec::new();
        let mut i: usize = 0;
        while i < self.latest.len()
            invariant
                i <= self.latest.len(),
                r@.len() == i,
                forall|j: int| 0 <= j < i ==> cloned(self.entries()[j].1, #[trigger] r@[j]),
            decreases self.latest.len() - i,
        {
            let v = self.latest[i].1.clone();
            r.push(v);
            i = i + 1;
        }
        r
    }

    /// A new subscription. It sees only what is published after this
    /// call; the cache is left as it was.
    pub fn add_rx(&mut self) -> (r: Reader<T>)
        requires
            old(self).wf(),
        ensures
            final(self).wf(),
            final(self).entries() == old(self).entries(),
    {
        add_reader(&mut self.broadcaster)
    }
}

/// Publishing a message of a kind caches exactly the kinds already cached
/// and that one.
proof fn lemma_cache_domain<T: Message>(ms: Seq<T>, id: Seq<char>)
    ensures
        cache_after(ms).contains_key(id) <==> exists|i: int| 0 <= i < ms.len() && ms[i].cache_id() == Some(id),
    decreases ms.len(),
{
    if ms.len() > 0 {
        let t = ms.drop_last();
        lemma_cache_domain(t, id);
        if exists|i: int| 0 <= i < ms.len() && ms[i].cache_id() == Some(id) {
            let i = choose|i: int| 0 <= i < ms.len() && ms[i].cache_id() == Some(id);
            if i < ms.len() - 1 {
                assert(t[i] == ms[i]);
            }
        }
        if cache_after(t).contains_key(id) {
            let i = choose|i: int| 0 <= i < t.len() && t[i].cache_id() == Some(id);
            assert(t[i] == ms[i]);
        }
        if ms.last().cache_id() == Some(id) {
            assert(ms[ms.len() - 1].cache_id() == Some(id));
        }
    }
}

/// The value cached for the kind of `ms[i]`, where no later message has
/// that kind, is `ms[i]`.
proof fn lemma_cache_value<T: Message>(ms: Seq<T>, i: int)
    requires
        0 <= i < ms.len(),
        ms[i].cache_id() is Some,
        forall|j: int| i < j < ms.len() ==> ms[j].cache_id() != ms[i].cache_id(),
    ensures
        cache_after(ms)[ms[i].cache_id().unwrap()] == ms[i],
    decreases ms.len(),
{
    let t = ms.drop_last();
    if i < ms.len() - 1 {
        assert(t[i] == ms[i]);
        assert forall|j: int| i < j < t.len() implies t[j].cache_id() != t[i].cache_id() by {
            assert(t[j] == ms[j]);
        }
        lemma_cache_value(t, i);
        assert(ms.last() == ms[ms.len() - 1]);
    }
}

/// Last write wins: after a run of publishes on a fresh bus, the cache
/// holds exactly the kinds that occurred, each with the last message of
/// that kind.
pub proof fn lemma_last_write_wins<T: Message>(ms: Seq<T>)
    ensures
        forall|id: Seq<char>|
            #[trigger] cache_after(ms).contains_key(id) <==> exists|i: int|
                0 <= i < ms.len() && ms[i].cache_id() == Some(id),
        forall|i: int|
            0 <= i < ms.len() && (#[trigger] ms[i].cache_id()) is Some && (forall|j: int|
                i < j < ms.len() ==> ms[j].cache_id() != ms[i].cache_id()) ==> cache_after(ms)[ms[i].cache_id().unwrap()]
                == ms[i],
{
    assert forall|id: Seq<char>|
        #[trigger] cache_after(ms).contains_key(id) <==> exists|i: int|
            0 <= i < ms.len() && ms[i].cache_id() == Some(id) by {
        lemma_cache_domain(ms, id);
    }
    assert forall|i: int|
        0 <= i < ms.len() && (#[trigger] ms[i].cache_id()) is Some && (forall|j: int|
            i < j < ms.len() ==> ms[j].cache_id() != ms[i].cache_id()) implies cache_after(ms)[ms[i].cache_id().unwrap()]
        == ms[i] by {
        lemma_cache_value(ms, i);
    }
}

} // verus!
