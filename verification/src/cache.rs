//! Small bounded in-memory cache of translations that forgets the least recently used one.
//! Disabled by default because it keeps message text in memory.

use vstd::prelude::*;

use crate::text;

verus! {

/// Cache key: everything that affects the model output.
#[derive(Debug, Clone, PartialEq, Eq, Hash)]
pub struct CacheKey {
    pub source: String,
    pub target: String,
    pub format: String,
    pub text: String,
}

/// The texts of a cache key.
pub struct CacheKeyView {
    pub source: Seq<char>,
    pub target: Seq<char>,
    pub format: Seq<char>,
    pub text: Seq<char>,
}

impl View for CacheKey {
    type V = CacheKeyView;

    open spec fn view(&self) -> CacheKeyView {
        CacheKeyView {
            source: self.source@,
            target: self.target@,
            format: self.format@,
            text: self.text@,
        }
    }
}

impl CacheKey {
    /// Whether two keys hold the same texts.
    pub fn same(&self, other: &CacheKey) -> (r: bool)
        ensures
            r == (self@ == other@),
    {
        text::same(self.source.as_str(), other.source.as_str()) && text::same(
            self.target.as_str(),
            other.target.as_str(),
        ) && text::same(self.format.as_str(), other.format.as_str()) && text::same(
            self.text.as_str(),
            other.text.as_str(),
        )
    }
}

#[derive(Debug)]
struct Entry {
    key: CacheKey,
    value: String,
}

/// What a cache holds: translations with their keys, from the least to the most recently used.
pub type Entries = Seq<(CacheKeyView, Seq<char>)>;

/// Where `key` stands in `entries`, looking from position `from` on.
pub open spec fn position_from(entries: Entries, key: CacheKeyView, from: int) -> Option<int>
    decreases entries.len() - from,
{
    if from < 0 || from >= entries.len() {
        None
    } else if entries[from].0 == key {
        Some(from)
    } else {
        position_from(entries, key, from + 1)
    }
}

/// Where `key` stands in `entries`.
pub open spec fn position(entries: Entries, key: CacheKeyView) -> Option<int> {
    position_from(entries, key, 0)
}

/// The translation under `key`.
pub open spec fn lookup(entries: Entries, key: CacheKeyView) -> Option<Seq<char>> {
    match position(entries, key) {
        Some(at) => Some(entries[at].1),
        None => None,
    }
}

/// `entries` after a look-up of `key`: what was found is now the most recently used.
pub open spec fn used(entries: Entries, key: CacheKeyView) -> Entries {
    match position(entries, key) {
        Some(at) => entries.remove(at).push(entries[at]),
        None => entries,
    }
}

/// `entries` after `value` is stored under `key` in a cache for `capacity` translations.
pub open spec fn stored(
    capacity: nat,
    entries: Entries,
    key: CacheKeyView,
    value: Seq<char>,
) -> Entries {
    if capacity == 0 {
        entries
    } else {
        match position(entries, key) {
            Some(at) => entries.remove(at).push((key, value)),
            None => if entries.len() >= capacity {
                entries.drop_first().push((key, value))
            } else {
                entries.push((key, value))
            },
        }
    }
}

/// No key occurs twice, and no more than `capacity` translations are held.
pub open spec fn valid(capacity: nat, entries: Entries) -> bool {
    &&& entries.len() <= capacity
    &&& forall|i: int, j: int|
        0 <= i < j < entries.len() ==> #[trigger] entries[i].0 != #[trigger] entries[j].0
}

/// Least-recently-used cache. Every operation is linear in the number of translations held,
/// which is fine for the few hundred that this is meant for.
#[derive(Debug)]
pub struct TranslationCache {
    capacity: usize,
    entries: Vec<Entry>,
}

impl View for TranslationCache {
    type V = Entries;

    closed spec fn view(&self) -> Entries {
        entries_of(self.entries@)
    }
}

spec fn entries_of(entries: Seq<Entry>) -> Entries {
    entries.map_values(|e: Entry| (e.key@, e.value@))
}

impl TranslationCache {
    /// How many translations the cache may hold.
    pub closed spec fn capacity(&self) -> nat {
        self.capacity as nat
    }

    #[verifier::type_invariant]
    spec fn well_formed(&self) -> bool {
        valid(self.capacity as nat, entries_of(self.entries@))
    }

    /// Create a cache holding at most `capacity` translations (0 disables it).
    pub fn new(capacity: usize) -> (r: Self)
        ensures
            r.capacity() == capacity,
            r@ == Entries::empty(),
            valid(r.capacity(), r@),
    {
        let entries: Vec<Entry> = Vec::new();
        assert(entries_of(entries@) =~= Entries::empty());
        TranslationCache { capacity, entries }
    }

    /// Where `key` stands among the entries.
    fn find(entries: &Vec<Entry>, key: &CacheKey) -> (r: Option<usize>)
        ensures
            match r {
                Some(at) => at < entries.len() && position(entries_of(entries@), key@) == Some(
                    at as int,
                ),
                None => position(entries_of(entries@), key@) is None,
            },
    {
        let mut i: usize = 0;
        while i < entries.len()
            invariant
                i <= entries.len(),
                position(entries_of(entries@), key@) == position_from(
                    entries_of(entries@),
                    key@,
                    i as int,
                ),
            decreases entries.len() - i,
        {
            if entries[i].key.same(key) {
                return Some(i);
            }
            i = i + 1;
        }
        None
    }

    /// Look up a translation, which becomes the most recently used one.
    pub fn get(&mut self, key: &CacheKey) -> (r: Option<String>)
        ensures
            text::opt_view(r) == lookup(old(self)@, key@),
            final(self)@ == used(old(self)@, key@),
            final(self).capacity() == old(self).capacity(),
            valid(final(self).capacity(), final(self)@),
    {
        proof {
            use_type_invariant(&*self);
        }
        let ghost before = entries_of(self.entries@);
        match Self::find(&self.entries, key) {
            Some(at) => {
                let mut entries: Vec<Entry> = Vec::new();
                assert(entries_of(entries@) =~= Entries::empty());
                std::mem::swap(&mut entries, &mut self.entries);
                let entry = entries.remove(at);
                let value = entry.value.clone();
                entries.push(entry);
                assert(entries_of(entries@) =~= used(before, key@));
                proof {
                    lemma_position_from(before, key@, 0);
                    law_lookup_keeps_cache_valid(self.capacity as nat, before, key@);
                }
                self.entries = entries;
                Some(value)
            },
            None => None,
        }
    }

    /// Store a translation, evicting the least recently used one if full.
    pub fn insert(&mut self, key: CacheKey, value: String)
        ensures
            final(self)@ == stored(old(self).capacity(), old(self)@, key@, value@),
            final(self).capacity() == old(self).capacity(),
            valid(final(self).capacity(), final(self)@),
    {
        proof {
            use_type_invariant(&*self);
        }
        if self.capacity == 0 {
            return;
        }
        let ghost before = entries_of(self.entries@);
        let found = Self::find(&self.entries, &key);
        let capacity = self.capacity;
        let mut entries: Vec<Entry> = Vec::new();
        assert(entries_of(entries@) =~= Entries::empty());
        std::mem::swap(&mut entries, &mut self.entries);
        match found {
            Some(at) => {
                entries.remove(at);
                assert(entries_of(entries@) =~= before.remove(at as int));
            },
            None => {
                if entries.len() >= capacity {
                    entries.remove(0);
                    assert(entries_of(entries@) =~= before.drop_first());
                } else {
                    assert(entries_of(entries@) =~= before);
                }
            },
        }
        let ghost new_entry = (key@, value@);
        let ghost kept = entries_of(entries@);
        entries.push(Entry { key, value });
        assert(entries_of(entries@) =~= kept.push(new_entry));
        proof {
            law_storing_keeps_cache_valid(capacity as nat, before, new_entry.0, new_entry.1);
        }
        self.entries = entries;
    }
}

/// What `position_from` gives is the first place of the key from there on.
proof fn lemma_position_from(entries: Entries, key: CacheKeyView, from: int)
    requires
        0 <= from,
    ensures
        match position_from(entries, key, from) {
            Some(at) => from <= at < entries.len() && entries[at].0 == key && forall|k: int|
                from <= k < at ==> entries[k].0 != key,
            None => forall|k: int| from <= k < entries.len() ==> entries[k].0 != key,
        },
    decreases entries.len() - from,
{
    if from < entries.len() && entries[from].0 != key {
        lemma_position_from(entries, key, from + 1);
    }
}

/// A key that stands at `at`, and nowhere else, is found there.
proof fn lemma_position_is(entries: Entries, key: CacheKeyView, at: int)
    requires
        0 <= at < entries.len(),
        entries[at].0 == key,
        forall|k: int| 0 <= k < entries.len() && k != at ==> entries[k].0 != key,
    ensures
        position(entries, key) == Some(at),
        lookup(entries, key) == Some(entries[at].1),
{
    lemma_position_from(entries, key, 0);
}

/// Law: a look-up keeps the cache valid.
pub proof fn law_lookup_keeps_cache_valid(capacity: nat, entries: Entries, key: CacheKeyView)
    requires
        valid(capacity, entries),
    ensures
        valid(capacity, used(entries, key)),
{
    lemma_position_from(entries, key, 0);
}

/// Law: storing keeps the cache valid: never more than its capacity, never a key twice.
pub proof fn law_storing_keeps_cache_valid(
    capacity: nat,
    entries: Entries,
    key: CacheKeyView,
    value: Seq<char>,
)
    requires
        valid(capacity, entries),
    ensures
        valid(capacity, stored(capacity, entries, key, value)),
{
    lemma_position_from(entries, key, 0);
}

/// Law: what was stored under a key is what a look-up of that key gives back.
pub proof fn law_stored_translation_is_found(
    capacity: nat,
    entries: Entries,
    key: CacheKeyView,
    value: Seq<char>,
)
    requires
        valid(capacity, entries),
        capacity > 0,
    ensures
        lookup(stored(capacity, entries, key, value), key) == Some(value),
{
    lemma_position_from(entries, key, 0);
    let after = stored(capacity, entries, key, value);
    lemma_position_is(after, key, after.len() - 1);
}

/// Law: a cache of capacity 0 stores nothing and finds nothing.
pub proof fn law_disabled_cache_stores_nothing(
    entries: Entries,
    key: CacheKeyView,
    value: Seq<char>,
    other: CacheKeyView,
)
    requires
        valid(0, entries),
    ensures
        stored(0, entries, key, value) == entries,
        lookup(stored(0, entries, key, value), other) is None,
{
    lemma_position_from(entries, other, 0);
}

/// Law: storing under one key leaves every other key as it was, but for the least recently used
/// one where a full cache had to make room.
pub proof fn law_storing_keeps_other_translations(
    capacity: nat,
    entries: Entries,
    key: CacheKeyView,
    value: Seq<char>,
    other: CacheKeyView,
)
    requires
        valid(capacity, entries),
        other != key,
        entries.len() < capacity || position(entries, key) is Some || position(entries, other)
            != Some(0int),
    ensures
        lookup(stored(capacity, entries, key, value), other) == lookup(entries, other),
{
    let after = stored(capacity, entries, key, value);
    lemma_position_from(entries, key, 0);
    lemma_position_from(entries, other, 0);
    lemma_position_from(after, other, 0);
    match position(entries, other) {
        Some(at) => {
            let moved = match position(entries, key) {
                Some(k) => if k < at {
                    at - 1
                } else {
                    at
                },
                None => if capacity > 0 && entries.len() >= capacity {
                    at - 1
                } else {
                    at
                },
            };
            assert(after[moved] == entries[at]);
            law_storing_keeps_cache_valid(capacity, entries, key, value);
            lemma_position_is(after, other, moved);
        },
        None => {
            assert forall|k: int| 0 <= k < after.len() implies after[k].0 != other by {
                if k < after.len() - 1 || capacity == 0 {
                    assert(after[k] == entries[k] || after[k] == entries[k + 1]);
                }
            }
        },
    }
}

/// Law: a full cache that has to make room forgets the least recently used translation.
pub proof fn law_least_recently_used_is_evicted(
    capacity: nat,
    entries: Entries,
    key: CacheKeyView,
    value: Seq<char>,
)
    requires
        valid(capacity, entries),
        capacity > 0,
        entries.len() == capacity,
        position(entries, key) is None,
    ensures
        lookup(entries, entries[0].0) is Some,
        lookup(stored(capacity, entries, key, value), entries[0].0) is None,
{
    let after = stored(capacity, entries, key, value);
    lemma_position_is(entries, entries[0].0, 0);
    lemma_position_from(entries, key, 0);
    lemma_position_from(after, entries[0].0, 0);
    assert forall|k: int| 0 <= k < after.len() implies after[k].0 != entries[0].0 by {
        if k < after.len() - 1 {
            assert(after[k] == entries[k + 1]);
        }
    }
}

/// Law: a look-up changes no translation, only how recently each was used.
pub proof fn law_lookup_keeps_translations(
    capacity: nat,
    entries: Entries,
    key: CacheKeyView,
    other: CacheKeyView,
)
    requires
        valid(capacity, entries),
    ensures
        lookup(used(entries, key), other) == lookup(entries, other),
{
    let after = used(entries, key);
    lemma_position_from(entries, key, 0);
    lemma_position_from(entries, other, 0);
    lemma_position_from(after, other, 0);
    law_lookup_keeps_cache_valid(capacity, entries, key);
    match position(entries, key) {
        Some(at) => {
            match position(entries, other) {
                Some(o) => {
                    let moved = if o < at {
                        o
                    } else if o == at {
                        after.len() - 1
                    } else {
                        o - 1
                    };
                    assert(after[moved] == entries[o]);
                    lemma_position_is(after, other, moved);
                },
                None => {
                    assert forall|k: int| 0 <= k < after.len() implies after[k].0 != other by {
                        if k < at {
                            assert(after[k] == entries[k]);
                        } else if k < after.len() - 1 {
                            assert(after[k] == entries[k + 1]);
                        } else {
                            assert(after[k] == entries[at]);
                        }
                    }
                },
            }
        },
        None => {},
    }
}

/// Law: what was looked up is the last to be forgotten: it is now the most recently used.
pub proof fn law_lookup_makes_most_recent(entries: Entries, key: CacheKeyView)
    requires
        position(entries, key) is Some,
    ensures
        used(entries, key).len() == entries.len(),
        used(entries, key).last() == (key, lookup(entries, key)->0),
{
    lemma_position_from(entries, key, 0);
}

/// Law: storing under one key never makes a translation appear under another: what is found under
/// another key was there before.
pub proof fn law_storing_adds_only_its_key(
    capacity: nat,
    entries: Entries,
    key: CacheKeyView,
    value: Seq<char>,
    other: CacheKeyView,
)
    requires
        valid(capacity, entries),
        other != key,
    ensures
        lookup(stored(capacity, entries, key, value), other) matches Some(found) ==> lookup(
            entries,
            other,
        ) == Some(found),
{
    let after = stored(capacity, entries, key, value);
    lemma_position_from(entries, key, 0);
    lemma_position_from(entries, other, 0);
    lemma_position_from(after, other, 0);
    if let Some(at) = position(after, other) {
        if capacity > 0 {
            assert(at < after.len() - 1);
            let was = match position(entries, key) {
                Some(k) => if at < k {
                    at
                } else {
                    at + 1
                },
                None => if entries.len() >= capacity {
                    at + 1
                } else {
                    at
                },
            };
            assert(after[at] == entries[was]);
            lemma_position_is(entries, other, was);
        }
    }
}

/// What is done with a cache.
pub enum CacheUseView {
    /// A translation is looked up.
    Look(CacheKeyView),
    /// A translation is stored.
    Keep(CacheKeyView, Seq<char>),
}

/// A cache after all this was done with it.
pub open spec fn after_uses(capacity: nat, entries: Entries, uses: Seq<CacheUseView>) -> Entries
    decreases uses.len(),
{
    if uses.len() == 0 {
        entries
    } else {
        let before = after_uses(capacity, entries, uses.drop_last());
        match uses.last() {
            CacheUseView::Look(key) => used(before, key),
            CacheUseView::Keep(key, value) => stored(capacity, before, key, value),
        }
    }
}

/// `value` is stored under `key` by the use at `at`, and nothing is by a later one.
pub open spec fn last_kept(
    uses: Seq<CacheUseView>,
    key: CacheKeyView,
    value: Seq<char>,
    at: int,
) -> bool {
    &&& 0 <= at < uses.len()
    &&& uses[at] == CacheUseView::Keep(key, value)
    &&& forall|k: int|
        at < k < uses.len() ==> !(#[trigger] uses[k] matches CacheUseView::Keep(other, _) && other
            == key)
}

/// Law: whatever was done with a cache, what is found under a key is the translation that was last
/// stored under that key: the same source, target, format and text.
pub proof fn law_found_translation_was_stored_last(
    capacity: nat,
    uses: Seq<CacheUseView>,
    key: CacheKeyView,
)
    ensures
        valid(capacity, after_uses(capacity, Seq::empty(), uses)),
        lookup(after_uses(capacity, Seq::empty(), uses), key) matches Some(found) ==> exists|at: int|
            last_kept(uses, key, found, at),
    decreases uses.len(),
{
    let nothing = Seq::<(CacheKeyView, Seq<char>)>::empty();
    if uses.len() > 0 {
        let before = after_uses(capacity, nothing, uses.drop_last());
        let after = after_uses(capacity, nothing, uses);
        law_found_translation_was_stored_last(capacity, uses.drop_last(), key);
        match uses.last() {
            CacheUseView::Look(looked) => {
                law_lookup_keeps_cache_valid(capacity, before, looked);
                law_lookup_keeps_translations(capacity, before, looked, key);
            },
            CacheUseView::Keep(kept, value) => {
                law_storing_keeps_cache_valid(capacity, before, kept, value);
                if kept == key {
                    if capacity > 0 {
                        law_stored_translation_is_found(capacity, before, kept, value);
                        assert(last_kept(uses, key, value, uses.len() - 1));
                    } else {
                        law_disabled_cache_stores_nothing(before, kept, value, key);
                    }
                } else {
                    law_storing_adds_only_its_key(capacity, before, kept, value, key);
                }
            },
        }
        if let Some(found) = lookup(after, key) {
            if !(exists|at: int| last_kept(uses, key, found, at)) {
                let at = choose|at: int| last_kept(uses.drop_last(), key, found, at);
                assert(uses[at] == uses.drop_last()[at]);
                assert forall|k: int| at < k < uses.len() implies !(
                #[trigger] uses[k] matches CacheUseView::Keep(other, _) && other == key) by {
                    if k < uses.len() - 1 {
                        assert(uses[k] == uses.drop_last()[k]);
                    }
                }
                assert(last_kept(uses, key, found, at));
            }
        }
    }
}

/// Law: a translation that was just stored or looked up is found again after as many uses of the
/// cache as it has room for others, as long as nothing else is stored under its key.
pub proof fn law_recent_translation_stays(
    capacity: nat,
    entries: Entries,
    uses: Seq<CacheUseView>,
)
    requires
        valid(capacity, entries),
        entries.len() > 0,
        uses.len() < capacity,
        forall|k: int|
            0 <= k < uses.len() ==> !(#[trigger] uses[k] matches CacheUseView::Keep(other, _)
                && other == entries.last().0),
    ensures
        valid(capacity, after_uses(capacity, entries, uses)),
        lookup(after_uses(capacity, entries, uses), entries.last().0) == Some(entries.last().1),
        position(after_uses(capacity, entries, uses), entries.last().0) matches Some(at)
            && after_uses(capacity, entries, uses).len() - 1 - at <= uses.len(),
    decreases uses.len(),
{
    let key = entries.last().0;
    if uses.len() == 0 {
        lemma_position_is(entries, key, entries.len() - 1);
    } else {
        let earlier = uses.drop_last();
        assert forall|k: int| 0 <= k < earlier.len() implies !(
        #[trigger] earlier[k] matches CacheUseView::Keep(other, _) && other == key) by {
            assert(earlier[k] == uses[k]);
        }
        law_recent_translation_stays(capacity, entries, earlier);
        let before = after_uses(capacity, entries, earlier);
        let after = after_uses(capacity, entries, uses);
        lemma_position_from(before, key, 0);
        let at = position(before, key)->0;
        assert(uses.last() == uses[uses.len() - 1]);
        match uses.last() {
            CacheUseView::Look(looked) => {
                law_lookup_keeps_cache_valid(capacity, before, looked);
                lemma_position_from(before, looked, 0);
                let moved = match position(before, looked) {
                    Some(l) => if l < at {
                        at - 1
                    } else if l == at {
                        after.len() - 1
                    } else {
                        at
                    },
                    None => at,
                };
                assert(after[moved] == before[at]);
                lemma_position_is(after, key, moved);
            },
            CacheUseView::Keep(kept, value) => {
                law_storing_keeps_cache_valid(capacity, before, kept, value);
                lemma_position_from(before, kept, 0);
                let moved = match position(before, kept) {
                    Some(l) => if l < at {
                        at - 1
                    } else {
                        at
                    },
                    None => if before.len() >= capacity {
                        at - 1
                    } else {
                        at
                    },
                };
                assert(after[moved] == before[at]);
                lemma_position_is(after, key, moved);
            },
        }
    }
}

} // verus!
