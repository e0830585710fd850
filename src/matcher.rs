use vstd::prelude::*;
use std::sync::Arc;
use crate::pattern::{Captures, Pattern, RegexPattern, captures_of};

verus! {

/// The lower-case form of a string, as `str::to_lowercase` gives it.
pub uninterp spec fn lower_of(s: Seq<char>) -> Seq<char>;

/// Relies on `str::to_lowercase`: the result depends on the characters alone.
#[verifier::external_body]
fn lowercase(s: &str) -> (r: String)
    ensures
        r@ == lower_of(s@),
{
    s.to_lowercase()
}

/// The identity of a command: its channel and its lower-cased name.
#[derive(Debug, Clone, PartialEq, Eq, Hash)]
pub struct Key {
    pub channel: String,
    pub name: String,
}

impl View for Key {
    type V = (Seq<char>, Seq<char>);

    open spec fn view(&self) -> (Seq<char>, Seq<char>) {
        (self.channel@, self.name@)
    }
}

impl Key {
    /// A key on `channel` whose name is `name` in lower case.
    pub fn new(channel: &str, name: &str) -> (r: Key)
        ensures
            r@ == (channel@, lower_of(name@)),
    {
        Key { channel: channel.to_owned(), name: lowercase(name) }
    }

    fn same(&self, other: &Key) -> (r: bool)
        ensures
            r == (self@ == other@),
    {
        self.channel == other.channel && self.name == other.name
    }

    fn copy(&self) -> (r: Key)
        ensures
            r@ == self@,
    {
        Key { channel: self.channel.clone(), name: self.name.clone() }
    }
}

/// Something that can be registered as a command.
pub trait Matchable {
    /// The key of the command.
    fn key(&self) -> &Key;

    /// The pattern of the command.
    fn pattern(&self) -> &Pattern;
}

/// Whether `p` is a pattern that `v.pattern()` may report.
pub open spec fn reports<T: Matchable>(v: &T, p: &Pattern) -> bool {
    call_ensures(T::pattern, (v,), p)
}

/// What one registered command looks like to the contracts: its key, its
/// value, and the pattern it is indexed by (`None`: it sits in the name
/// index; the source of a regular expression: it sits in the regular
/// expression index of its channel).
pub type EntryView<T> = ((Seq<char>, Seq<char>), T, Option<Seq<char>>);

struct Entry<T> {
    key: Key,
    value: Arc<T>,
    pattern: Pattern,
}

/// Registered commands, in the order of their first registration.
///
/// Every key is held once. Each command sits in exactly one of two indices:
/// the name index, or the regular expression index of its channel.
pub struct Matcher<T: Matchable> {
    entries: Vec<Entry<T>>,
}

/// The position of the command with key `k`, or -1.
pub open spec fn index_of<T>(s: Seq<EntryView<T>>, k: (Seq<char>, Seq<char>)) -> int
    decreases s.len(),
{
    if s.len() == 0 {
        -1
    } else if s.last().0 == k {
        s.len() - 1
    } else {
        index_of(s.drop_last(), k)
    }
}

/// No key is held twice.
pub open spec fn keys_unique<T>(s: Seq<EntryView<T>>) -> bool {
    forall|i: int, j: int| 0 <= i < j < s.len() ==> s[i].0 != s[j].0
}

/// Whether the command at `e` answers `full` through its regular expression
/// on `channel`.
pub open spec fn regex_hit<T>(e: EntryView<T>, channel: Seq<char>, full: Seq<char>) -> bool {
    &&& e.2 matches Some(source)
    &&& e.0.0 == channel
    &&& captures_of(source, full) is Some
}

/// The first command from position `i` on that answers `full` through its
/// regular expression, with the groups it captured.
pub open spec fn first_regex_from<T>(
    s: Seq<EntryView<T>>,
    channel: Seq<char>,
    full: Seq<char>,
    i: int,
) -> Option<(T, Option<Seq<Option<Seq<char>>>>)>
    decreases s.len() - i,
{
    if i < 0 || i >= s.len() {
        None
    } else if regex_hit(s[i], channel, full) {
        Some((s[i].1, captures_of(s[i].2.unwrap(), full)))
    } else {
        first_regex_from(s, channel, full, i + 1)
    }
}

/// What resolving a line gives: the command registered by name under
/// `(channel, name)` where there is one, else the first command of the
/// channel whose regular expression matches the line.
pub open spec fn resolve_spec<T>(
    s: Seq<EntryView<T>>,
    channel: Seq<char>,
    name: Option<Seq<char>>,
    full: Seq<char>,
) -> Option<(T, Option<Seq<Option<Seq<char>>>>)> {
    let by_name = match name {
        Some(n) => {
            let i = index_of(s, (channel, n));
            i >= 0 && s[i].2 is None
        },
        None => false,
    };
    if by_name {
        Some((s[index_of(s, (channel, name.unwrap()))].1, None))
    } else {
        first_regex_from(s, channel, full, 0)
    }
}

/// Where a key is held once at most, `index_of` finds exactly its position.
pub proof fn lemma_index_of<T>(s: Seq<EntryView<T>>, k: (Seq<char>, Seq<char>))
    ensures
        -1 <= index_of(s, k) < s.len(),
        index_of(s, k) >= 0 ==> s[index_of(s, k)].0 == k,
        index_of(s, k) == -1 <==> forall|i: int| 0 <= i < s.len() ==> s[i].0 != k,
        keys_unique(s) ==> forall|i: int| 0 <= i < s.len() && s[i].0 == k ==> index_of(s, k) == i,
    decreases s.len(),
{
    if s.len() > 0 {
        lemma_index_of(s.drop_last(), k);
        if keys_unique(s) {
            assert(keys_unique(s.drop_last()));
        }
        assert forall|i: int| 0 <= i < s.len() - 1 implies s.drop_last()[i] == s[i] by {}
    }
}

/// The lower-case form of an optional word.
pub open spec fn lowered(word: Option<&str>) -> Option<Seq<char>> {
    match word {
        Some(w) => Some(lower_of(w@)),
        None => None,
    }
}

/// The pattern that a command gets from an optional regular expression.
pub open spec fn pattern_of(pattern: Option<RegexPattern>) -> Pattern {
    match pattern {
        Some(p) => Pattern::Regex { pattern: p },
        None => Pattern::Name,
    }
}

/// The view of an optional regular expression as a pattern.
pub open spec fn source_of(pattern: Option<RegexPattern>) -> Option<Seq<char>> {
    match pattern {
        Some(p) => Some(p@),
        None => None,
    }
}

/// How `modify_with_pattern` changes the keys and indices: nothing where
/// the key is absent or where a name command stays a name command;
/// otherwise only the entry of the key changes, and it moves to the index
/// of its new pattern.
pub open spec fn modify_shape<T>(
    before: Seq<EntryView<T>>,
    after: Seq<EntryView<T>>,
    k: (Seq<char>, Seq<char>),
    new: Option<Seq<char>>,
) -> bool {
    let i = index_of(before, k);
    if i < 0 || (new is None && before[i].2 is None) {
        after == before
    } else {
        &&& after.len() == before.len()
        &&& forall|j: int| 0 <= j < before.len() && j != i ==> after[j] == before[j]
        &&& after[i].0 == k
        &&& after[i].2 == new
    }
}

/// The keys of the entries of `channel` in the regular expression index,
/// in order.
pub open spec fn regex_keys<T>(s: Seq<EntryView<T>>, channel: Seq<char>) -> Seq<
    (Seq<char>, Seq<char>),
>
    decreases s.len(),
{
    if s.len() == 0 {
        Seq::empty()
    } else if s.last().2 is Some && s.last().0.0 == channel {
        regex_keys(s.drop_last(), channel).push(s.last().0)
    } else {
        regex_keys(s.drop_last(), channel)
    }
}

/// A key in the regular expression index of a channel belongs to an entry
/// of that channel that sits in that index.
pub proof fn lemma_regex_keys<T>(s: Seq<EntryView<T>>, channel: Seq<char>, k: (Seq<char>, Seq<char>))
    requires
        regex_keys(s, channel).contains(k),
    ensures
        exists|i: int| 0 <= i < s.len() && s[i].0 == k && s[i].2 is Some && k.0 == channel,
    decreases s.len(),
{
    let t = s.drop_last();
    if s.last().2 is Some && s.last().0.0 == channel && s.last().0 == k {
        assert(s[s.len() - 1].0 == k);
    } else {
        if s.last().2 is Some && s.last().0.0 == channel {
            let j = choose|j: int| 0 <= j < regex_keys(s, channel).len() && regex_keys(s, channel)[j] == k;
            assert(regex_keys(t, channel).push(s.last().0)[j] == k);
            assert(j < regex_keys(t, channel).len());
            assert(regex_keys(t, channel).contains(k));
        }
        lemma_regex_keys(t, channel, k);
        let i = choose|i: int| 0 <= i < t.len() && t[i].0 == k && t[i].2 is Some && k.0 == channel;
        assert(s[i] == t[i]);
    }
}

/// An entry of `channel` in the regular expression index has its key in
/// that channel's list.
proof fn lemma_regex_keys_complete<T>(s: Seq<EntryView<T>>, channel: Seq<char>, i: int)
    requires
        0 <= i < s.len(),
        s[i].2 is Some,
        s[i].0.0 == channel,
    ensures
        regex_keys(s, channel).contains(s[i].0),
    decreases s.len(),
{
    let t = s.drop_last();
    if i == s.len() - 1 {
        let r = regex_keys(s, channel);
        assert(r[r.len() - 1] == s[i].0);
    } else {
        assert(t[i] == s[i]);
        lemma_regex_keys_complete(t, channel, i);
        let r = regex_keys(t, channel);
        let j = choose|j: int| 0 <= j < r.len() && r[j] == s[i].0;
        if s.last().2 is Some && s.last().0.0 == channel {
            assert(r.push(s.last().0)[j] == s[i].0);
        }
    }
}

/// The indices partition the commands: every registered key is either in
/// the name index or in the regular expression index of its own channel,
/// never both, and neither index holds a key that is not registered.
pub proof fn lemma_indices_partition<T: Matchable>(m: &Matcher<T>, k: (Seq<char>, Seq<char>), c: Seq<char>)
    requires
        m.wf(),
    ensures
        m.all().contains_key(k) ==> (m.by_name().contains(k) != m.by_channel_regex(k.0).contains(k)),
        m.by_name().contains(k) ==> m.all().contains_key(k),
        m.by_channel_regex(c).contains(k) ==> m.all().contains_key(k) && k.0 == c,
{
    lemma_index_of(m@, k);
    let i = index_of(m@, k);
    if m.all().contains_key(k) && m@[i].2 is Some {
        lemma_regex_keys_complete(m@, k.0, i);
    }
    if m.by_channel_regex(k.0).contains(k) {
        lemma_regex_keys(m@, k.0, k);
    }
    if m.by_channel_regex(c).contains(k) {
        lemma_regex_keys(m@, c, k);
    }
}

/// Turning a command matched by regular expression into one matched by name
/// moves its key out of its channel's regular expression index and into the
/// name index; from then on every line on that channel resolves to it by its
/// name, and no line reaches it through a regular expression.
pub proof fn lemma_modify_to_name<T: Matchable>(
    before: &Matcher<T>,
    after: &Matcher<T>,
    k: (Seq<char>, Seq<char>),
)
    requires
        before.wf(),
        after.wf(),
        modify_shape(before@, after@, k, None),
        before.all().contains_key(k),
        !before.by_name().contains(k),
    ensures
        after.by_name().contains(k),
        !after.by_channel_regex(k.0).contains(k),
        forall|full: Seq<char>|
            #[trigger] resolve_spec(after@, k.0, Some(k.1), full) == Some(
                (after.all()[k], None::<Seq<Option<Seq<char>>>>),
            ),
        forall|i: int, full: Seq<char>|
            0 <= i < after@.len() && after@[i].0 == k ==> !#[trigger] regex_hit(after@[i], k.0, full),
{
    lemma_index_of(before@, k);
    let i = index_of(before@, k);
    assert(after@[i].0 == k);
    lemma_index_of(after@, k);
    assert(index_of(after@, k) == i);
    assert(after.by_name().contains(k));
    if after.by_channel_regex(k.0).contains(k) {
        lemma_regex_keys(after@, k.0, k);
    }
}

impl<T: Matchable> View for Matcher<T> {
    type V = Seq<EntryView<T>>;

    closed spec fn view(&self) -> Seq<EntryView<T>> {
        self.entries@.map_values(|e: Entry<T>| (e.key@, *e.value, e.pattern@))
    }
}

impl<T: Matchable> Matcher<T> {
    /// The matcher holds each key once.
    pub open spec fn wf(&self) -> bool {
        keys_unique(self@)
    }

    /// All commands, by key.
    pub open spec fn all(&self) -> Map<(Seq<char>, Seq<char>), T> {
        Map::new(|k: (Seq<char>, Seq<char>)| index_of(self@, k) >= 0, |k| self@[index_of(self@, k)].1)
    }

    /// The keys of the commands matched by name.
    pub open spec fn by_name(&self) -> Set<(Seq<char>, Seq<char>)> {
        Set::new(|k: (Seq<char>, Seq<char>)| index_of(self@, k) >= 0 && self@[index_of(self@, k)].2 is None)
    }

    /// The keys of the commands of `channel` matched by regular expression,
    /// in the order in which they are tried.
    pub open spec fn by_channel_regex(&self, channel: Seq<char>) -> Seq<(Seq<char>, Seq<char>)> {
        regex_keys(self@, channel)
    }

    /// An empty matcher.
    pub fn new() -> (r: Self)
        ensures
            r.wf(),
            r@ == Seq::<EntryView<T>>::empty(),
    {
        Matcher { entries: Vec::new() }
    }


    /// Whether a command is registered under `key`.
    pub fn contains_key(&self, key: &Key) -> (r: bool)
        requires
            self.wf(),
        ensures
            r == self.all().contains_key(key@),
    {
        self.find(key).is_some()
    }

    /// The command registered under `key`, if any.
    pub fn get(&self, key: &Key) -> (r: Option<&Arc<T>>)
        requires
            self.wf(),
        ensures
            match r {
                Some(v) => self.all().contains_key(key@) && **v == self.all()[key@],
                None => !self.all().contains_key(key@),
            },
    {
        match self.find(key) {
            Some(i) => Some(&self.entries[i].value),
            None => None,
        }
    }

    /// Register `value` under `key`, replacing any command held there. It
    /// goes to the name index or to the regular expression index of the
    /// key's channel, by the pattern that the value reports.
    pub fn insert(&mut self, key: Key, value: Arc<T>)
        requires
            old(self).wf(),
        ensures
            final(self).wf(),
            exists|p: &Pattern|
                #[trigger] reports(&*value, p) && ({
                    let e = (key@, *value, p@);
                    let i = index_of(old(self)@, key@);
                    if i >= 0 {
                        final(self)@ == old(self)@.update(i, e)
                    } else {
                        final(self)@ == old(self)@.push(e)
                    }
                }),
    {
        let reported = value.pattern();
        let ghost p = reported;
        let pattern = reported.duplicate();
        let ghost k = key@;
        let ghost old_view = self@;
        match self.find(&key) {
            Some(i) => {
                let ghost pv = pattern@;
                self.entries.set(i, Entry { key, value, pattern });
                proof {
                    lemma_index_of(old_view, k);
                    assert(self@ =~= old_view.update(i as int, (k, *value, pv)));
                    assert(reports(&*value, p));
                }
            },
            None => {
                let ghost pv = pattern@;
                self.entries.push(Entry { key, value, pattern });
                proof {
                    lemma_index_of(old_view, k);
                    assert(self@ =~= old_view.push((k, *value, pv)));
                    assert(reports(&*value, p));
                }
            },
        }
    }

    /// Take the command registered under `key` out of the matcher and out of
    /// its index; nothing changes where there is none.
    pub fn remove(&mut self, key: &Key) -> (r: Option<Arc<T>>)
        requires
            old(self).wf(),
        ensures
            final(self).wf(),
            ({
                let i = index_of(old(self)@, key@);
                if i >= 0 {
                    r matches Some(v) && *v == old(self)@[i].1 && final(self)@ == old(self)@.remove(i)
                } else {
                    r is None && final(self)@ == old(self)@
                }
            }),
    {
        let ghost old_view = self@;
        match self.find(key) {
            Some(i) => {
                let e = self.entries.remove(i);
                proof {
                    assert(self@ =~= old_view.remove(i as int));
                }
                Some(e.value)
            },
            None => None,
        }
    }


    /// Give the command under `key` a new pattern: a regular expression, or
    /// matching by name where `pattern` is `None`. The key moves between the
    /// indices as the pattern's kind changes, and a new value, made by `m`
    /// from a clone of the old one and the new pattern, takes its place.
    /// Handles to the old value keep seeing it unchanged. Nothing happens
    /// where the key is absent, or where a name command is asked to stay one.
    pub fn modify_with_pattern<F>(&mut self, key: Key, pattern: Option<RegexPattern>, m: F) where
        T: Clone,
        F: FnOnce(T, Pattern) -> T,

        requires
            old(self).wf(),
            forall|v: T, p: Pattern| m.requires((v, p)),
        ensures
            final(self).wf(),
            modify_shape(old(self)@, final(self)@, key@, source_of(pattern)),
            ({
                let i = index_of(old(self)@, key@);
                i >= 0 && (pattern is Some || old(self)@[i].2 is Some) ==> exists|c: T|
                    cloned(old(self)@[i].1, c) && #[trigger] m.ensures(
                        (c, pattern_of(pattern)),
                        final(self)@[i].1,
                    )
            }),
    {
        let ghost old_view = self@;
        let ghost k = key@;
        let ghost new_pattern = pattern_of(pattern);
        let i = match self.find(&key) {
            Some(i) => i,
            None => return ,
        };
        let to_regex = pattern.is_some();
        if !to_regex && matches!(self.entries[i].pattern, Pattern::Name) {
            return ;
        }
        let new_pattern_exec = match pattern {
            Some(p) => Pattern::Regex { pattern: p },
            None => Pattern::Name,
        };
        let kept = new_pattern_exec.duplicate();
        let current: &T = &self.entries[i].value;
        let copy: T = current.clone();
        let ghost c = copy;
        let new_value = m(copy, new_pattern_exec);
        let ghost kept_view = kept@;
        self.entries.set(i, Entry { key, value: Arc::new(new_value), pattern: kept });
        proof {
            lemma_index_of(old_view, k);
            assert(self@ =~= old_view.update(i as int, (k, new_value, kept_view)));
            assert(cloned(old_view[i as int].1, c));
            assert(m.ensures((c, new_pattern), self@[i as int].1));
        }
    }

    /// The command that a line resolves to on `channel`, with the groups
    /// it captured. `first` is the line's first word, if any: a command
    /// registered by that name (in lower case) wins; otherwise the first
    /// registered command of the channel whose regular expression matches
    /// `full` does.
    pub fn resolve(&self, channel: &str, first: Option<&str>, full: &str) -> (r: Option<
        (&Arc<T>, Captures),
    >)
        requires
            self.wf(),
        ensures
            r is None <==> resolve_spec(self@, channel@, lowered(first), full@) is None,
            r matches Some((v, c)) ==> resolve_spec(self@, channel@, lowered(first), full@) == Some(
                (**v, c@),
            ),
    {
        let ghost name = lowered(first);
        match first {
            Some(f) => {
                let key = Key::new(channel, f);
                match self.find(&key) {
                    Some(i) => {
                        if matches!(self.entries[i].pattern, Pattern::Name) {
                            return Some((&self.entries[i].value, Captures::empty()));
                        }
                    },
                    None => {},
                }
            },
            None => {},
        }
        let ch = channel.to_owned();
        let mut i: usize = 0;
        while i < self.entries.len()
            invariant
                i <= self.entries.len(),
                ch@ == channel@,
                name == lowered(first),
                resolve_spec(self@, channel@, name, full@) == first_regex_from(self@, channel@, full@, 0),
                first_regex_from(self@, channel@, full@, 0) == first_regex_from(
                    self@,
                    channel@,
                    full@,
                    i as int,
                ),
            decreases self.entries.len() - i,
        {
            let e = &self.entries[i];
            if e.key.channel == ch {
                match &e.pattern {
                    Pattern::Regex { pattern } => {
                        let caps = pattern.captures(full);
                        if caps.is_match() {
                            assert(self@[i as int] == (e.key@, *e.value, e.pattern@));
                            assert(regex_hit(self@[i as int], channel@, full@));
                            assert(first_regex_from(self@, channel@, full@, i as int) == Some(
                                (self@[i as int].1, caps@),
                            ));
                            return Some((&e.value, caps));
                        }
                    },
                    Pattern::Name => {},
                }
            }
            i = i + 1;
        }
        None
    }


    /// Every registered command, in the order of registration.
    pub fn values(&self) -> (r: Vec<&Arc<T>>)
        ensures
            r@.len() == self@.len(),
            forall|i: int| 0 <= i < r@.len() ==> **#[trigger] r@[i] == self@[i].1,
    {
        let mut r: Vec<&Arc<T>> = Vec::new();
        let mut i: usize = 0;
        while i < self.entries.len()
            invariant
                i <= self.entries.len(),
                r@.len() == i,
                forall|j: int| 0 <= j < i ==> **#[trigger] r@[j] == self@[j].1,
            decreases self.entries.len() - i,
        {
            r.push(&self.entries[i].value);
            i = i + 1;
        }
        r
    }

    /// Every key with its command, in the order of registration.
    pub fn iter(&self) -> (r: Vec<(&Key, &Arc<T>)>)
        ensures
            r@.len() == self@.len(),
            forall|i: int| 0 <= i < r@.len() ==> (#[trigger] r@[i]).0@ == self@[i].0 && *r@[i].1 == self@[i].1,
    {
        let mut r: Vec<(&Key, &Arc<T>)> = Vec::new();
        let mut i: usize = 0;
        while i < self.entries.len()
            invariant
                i <= self.entries.len(),
                r@.len() == i,
                forall|j: int| 0 <= j < i ==> (#[trigger] r@[j]).0@ == self@[j].0 && *r@[j].1 == self@[j].1,
            decreases self.entries.len() - i,
        {
            let e = &self.entries[i];
            r.push((&e.key, &e.value));
            i = i + 1;
        }
        r
    }

    fn find(&self, key: &Key) -> (r: Option<usize>)
        requires
            self.wf(),
        ensures
            match r {
                Some(i) => i < self@.len() && index_of(self@, key@) == i,
                None => index_of(self@, key@) == -1,
            },
    {
        let mut i: usize = self.entries.len();
        assert(self@.subrange(0, i as int) =~= self@);
        while i > 0
            invariant
                i <= self.entries.len(),
                index_of(self@, key@) == index_of(self@.subrange(0, i as int), key@),
            decreases i,
        {
            proof {
                let s = self@.subrange(0, i as int);
                assert(s.drop_last() =~= self@.subrange(0, i - 1));
                assert(s.last() == self@[i - 1]);
            }
            if self.entries[i - 1].key.same(key) {
                return Some(i - 1);
            }
            i = i - 1;
        }
        None
    }
}

} // verus!
