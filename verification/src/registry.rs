//! The table of spawn factories.
//!
//! A registration binds a factory to a pair of filters: an optional layer
//! identifier and an optional item identifier, where an absent filter matches
//! anything. A concrete layer and item may match up to four registrations;
//! [`FactoryRegistry::resolve`] picks the most specific of them.

use vstd::prelude::*;

verus! {

/// An identifier that can serve as a filter of the registry: two identifiers
/// can be compared, and are the same exactly when their views are.
pub trait RegistryKey: View + Sized {
    fn key_eq(&self, other: &Self) -> (same: bool)
        ensures
            same == (self@ == other@),
    ;
}

impl RegistryKey for i32 {
    fn key_eq(&self, other: &Self) -> (same: bool) {
        *self == *other
    }
}

impl RegistryKey for String {
    fn key_eq(&self, other: &Self) -> (same: bool) {
        *self == *other
    }
}

/// The view of a filter: the view of the identifier it holds, if it holds one.
pub open spec fn filter_view<K: View>(filter: Option<K>) -> Option<K::V> {
    match filter {
        Some(key) => Some(key@),
        None => None,
    }
}

/// The factory that a table of registrations gives for a concrete layer and
/// item. The four filter pairs that match are tried from the most specific to
/// the least: layer and item, item alone, layer alone, neither. The first one
/// that is registered wins; with none registered, the default is the answer.
pub open spec fn resolved<L, I, F>(
    table: Map<(Option<L>, Option<I>), F>,
    layer: L,
    item: I,
    default: F,
) -> F {
    if table.contains_key((Some(layer), Some(item))) {
        table[(Some(layer), Some(item))]
    } else if table.contains_key((None, Some(item))) {
        table[(None, Some(item))]
    } else if table.contains_key((Some(layer), None)) {
        table[(Some(layer), None)]
    } else if table.contains_key((None, None)) {
        table[(None, None)]
    } else {
        default
    }
}

/// With all four matching filter pairs registered, the pair that names both
/// the layer and the item wins.
pub proof fn lemma_resolve_prefers_most_specific<L, I, F>(
    table: Map<(Option<L>, Option<I>), F>,
    layer: L,
    item: I,
    default: F,
)
    requires
        table.contains_key((Some(layer), Some(item))),
        table.contains_key((None, Some(item))),
        table.contains_key((Some(layer), None)),
        table.contains_key((None, None)),
    ensures
        resolved(table, layer, item, default) == table[(Some(layer), Some(item))],
{
}

/// The order of preference in full: a registration wins exactly when it
/// matches and no more specific registration does. Item alone is more
/// specific than layer alone.
pub proof fn lemma_resolve_priority<L, I, F>(
    table: Map<(Option<L>, Option<I>), F>,
    layer: L,
    item: I,
    default: F,
)
    ensures
        table.contains_key((Some(layer), Some(item))) ==> resolved(table, layer, item, default)
            == table[(Some(layer), Some(item))],
        !table.contains_key((Some(layer), Some(item))) && table.contains_key((None, Some(item)))
            ==> resolved(table, layer, item, default) == table[(None, Some(item))],
        !table.contains_key((Some(layer), Some(item))) && !table.contains_key((None, Some(item)))
            && table.contains_key((Some(layer), None)) ==> resolved(table, layer, item, default)
            == table[(Some(layer), None)],
        !table.contains_key((Some(layer), Some(item))) && !table.contains_key((None, Some(item)))
            && !table.contains_key((Some(layer), None)) && table.contains_key((None, None))
            ==> resolved(table, layer, item, default) == table[(None, None)],
        !table.contains_key((Some(layer), Some(item))) && !table.contains_key((None, Some(item)))
            && !table.contains_key((Some(layer), None)) && !table.contains_key((None, None))
            ==> resolved(table, layer, item, default) == default,
{
}

/// A table that holds the catch-all registration and nothing else gives the
/// catch-all for every layer and item.
pub proof fn lemma_resolve_catch_all<L, I, F>(catch_all: F, layer: L, item: I, default: F)
    ensures
        resolved(
            Map::<(Option<L>, Option<I>), F>::empty().insert((None, None), catch_all),
            layer,
            item,
            default,
        ) == catch_all,
{
}

/// An empty table gives the default for every layer and item.
pub proof fn lemma_resolve_empty<L, I, F>(layer: L, item: I, default: F)
    ensures
        resolved(Map::<(Option<L>, Option<I>), F>::empty(), layer, item, default) == default,
{
}

/// Registrations under two different filter pairs can be made in either
/// order: the table is the same, and so is every resolution.
pub proof fn lemma_registration_order_irrelevant<L, I, F>(
    table: Map<(Option<L>, Option<I>), F>,
    first: (Option<L>, Option<I>),
    first_factory: F,
    second: (Option<L>, Option<I>),
    second_factory: F,
)
    requires
        first != second,
    ensures
        table.insert(first, first_factory).insert(second, second_factory) == table.insert(
            second,
            second_factory,
        ).insert(first, first_factory),
{
    assert(table.insert(first, first_factory).insert(second, second_factory) =~= table.insert(
        second,
        second_factory,
    ).insert(first, first_factory));
}

/// Registering twice under one filter pair leaves the later factory alone.
pub proof fn lemma_last_registration_wins<L, I, F>(
    table: Map<(Option<L>, Option<I>), F>,
    key: (Option<L>, Option<I>),
    earlier: F,
    later: F,
)
    ensures
        table.insert(key, earlier).insert(key, later) == table.insert(key, later),
{
    assert(table.insert(key, earlier).insert(key, later) =~= table.insert(key, later));
}

/// One registration: a pair of filters and the factory bound to it.
pub struct Registration<A, B, F> {
    pub layer: Option<A>,
    pub item: Option<B>,
    pub factory: F,
}

impl<A: View, B: View, F> Registration<A, B, F> {
    /// The pair of filters, by their views.
    pub open spec fn key(&self) -> (Option<A::V>, Option<B::V>) {
        (filter_view(self.layer), filter_view(self.item))
    }
}

/// A table from filter pairs to factories, with at most one factory per pair.
pub struct FactoryRegistry<A, B, F> {
    entries: Vec<Registration<A, B, F>>,
}

impl<A: View, B: View, F> View for FactoryRegistry<A, B, F> {
    type V = Map<(Option<A::V>, Option<B::V>), F>;

    /// The registrations as a map from filter pairs to factories.
    closed spec fn view(&self) -> Self::V {
        Map::new(
            |k: (Option<A::V>, Option<B::V>)| self.holds(k),
            |k: (Option<A::V>, Option<B::V>)| self.entries@[self.index_of(k)].factory,
        )
    }
}

impl<A: View, B: View, F> FactoryRegistry<A, B, F> {
    spec fn holds(&self, k: (Option<A::V>, Option<B::V>)) -> bool {
        exists|i: int| 0 <= i < self.entries@.len() && #[trigger] self.entries@[i].key() == k
    }

    spec fn index_of(&self, k: (Option<A::V>, Option<B::V>)) -> int {
        choose|i: int| 0 <= i < self.entries@.len() && #[trigger] self.entries@[i].key() == k
    }

    /// No pair of filters is stored twice.
    pub closed spec fn wf(&self) -> bool {
        forall|i: int, j: int|
            0 <= i < j < self.entries@.len() ==> #[trigger] self.entries@[i].key()
                != #[trigger] self.entries@[j].key()
    }

    proof fn lemma_entry_in_view(&self, i: int)
        requires
            self.wf(),
            0 <= i < self.entries@.len(),
        ensures
            self@.contains_key(self.entries@[i].key()),
            self@[self.entries@[i].key()] == self.entries@[i].factory,
    {
        let k = self.entries@[i].key();
        assert(self.holds(k));
        let j = self.index_of(k);
        assert(0 <= j < self.entries@.len() && self.entries@[j].key() == k);
        assert(i == j);
    }

    proof fn lemma_view_from_entry(&self, k: (Option<A::V>, Option<B::V>))
        requires
            self@.contains_key(k),
        ensures
            0 <= self.index_of(k) < self.entries@.len(),
            self.entries@[self.index_of(k)].key() == k,
            self@[k] == self.entries@[self.index_of(k)].factory,
    {
        assert(self.holds(k));
    }
}

/// The filter pairs of a sequence of registrations.
spec fn keys_of<A: View, B: View, F>(entries: Seq<Registration<A, B, F>>) -> Set<
    (Option<A::V>, Option<B::V>),
> {
    Set::new(
        |k: (Option<A::V>, Option<B::V>)|
            exists|i: int| 0 <= i < entries.len() && #[trigger] entries[i].key() == k,
    )
}

proof fn lemma_distinct_keys_count<A: View, B: View, F>(entries: Seq<Registration<A, B, F>>)
    requires
        forall|i: int, j: int|
            0 <= i < j < entries.len() ==> #[trigger] entries[i].key() != #[trigger] entries[j].key(),
    ensures
        keys_of(entries).finite(),
        keys_of(entries).len() == entries.len(),
    decreases entries.len(),
{
    if entries.len() == 0 {
        assert(keys_of(entries) =~= Set::empty());
    } else {
        let front = entries.drop_last();
        let last_key = entries.last().key();
        lemma_distinct_keys_count(front);
        assert forall|k: (Option<A::V>, Option<B::V>)|
            keys_of(entries).contains(k) <==> keys_of(front).insert(last_key).contains(k) by {
            if keys_of(entries).contains(k) {
                let i = choose|i: int| 0 <= i < entries.len() && #[trigger] entries[i].key() == k;
                if i < front.len() {
                    assert(front[i].key() == k);
                }
            }
            if keys_of(front).contains(k) {
                let i = choose|i: int| 0 <= i < front.len() && #[trigger] front[i].key() == k;
                assert(entries[i].key() == k);
            }
            if k == last_key {
                assert(entries[entries.len() - 1].key() == k);
            }
        }
        assert(keys_of(entries) =~= keys_of(front).insert(last_key));
        if keys_of(front).contains(last_key) {
            let i = choose|i: int| 0 <= i < front.len() && #[trigger] front[i].key() == last_key;
            assert(entries[i].key() == entries[entries.len() - 1].key());
        }
    }
}

/// Tells whether a stored filter and a probed one are the same.
fn filters_match<K: RegistryKey>(stored: &Option<K>, probe: Option<&K>) -> (same: bool)
    ensures
        same == (filter_view(*stored) == filter_view(probe)),
{
    match (stored, probe) {
        (Some(a), Some(b)) => a.key_eq(b),
        (None, None) => true,
        _ => false,
    }
}

impl<A: RegistryKey, B: RegistryKey, F> FactoryRegistry<A, B, F> {
    /// A registry with no registration.
    pub fn new() -> (registry: Self)
        ensures
            registry.wf(),
            registry@ == Map::<(Option<A::V>, Option<B::V>), F>::empty(),
    {
        let registry = FactoryRegistry { entries: Vec::new() };
        assert(registry@ =~= Map::<(Option<A::V>, Option<B::V>), F>::empty());
        registry
    }

    /// The number of registrations, which is the number of filter pairs
    /// that have a factory.
    pub fn len(&self) -> (n: usize)
        requires
            self.wf(),
        ensures
            self@.dom().finite(),
            n == self@.len(),
    {
        proof {
            lemma_distinct_keys_count(self.entries@);
            assert(self@.dom() =~= keys_of(self.entries@));
        }
        self.entries.len()
    }

    /// Tells whether nothing is registered.
    pub fn is_empty(&self) -> (empty: bool)
        requires
            self.wf(),
        ensures
            empty == (self@ == Map::<(Option<A::V>, Option<B::V>), F>::empty()),
    {
        proof {
            if self.entries@.len() > 0 {
                self.lemma_entry_in_view(0);
            } else {
                assert(self@ =~= Map::<(Option<A::V>, Option<B::V>), F>::empty());
            }
        }
        self.entries.len() == 0
    }

    fn position(&self, layer: Option<&A>, item: Option<&B>) -> (found: Option<usize>)
        ensures
            match found {
                Some(i) => i < self.entries@.len() && self.entries@[i as int].key() == (
                    filter_view(layer),
                    filter_view(item),
                ),
                None => forall|i: int|
                    0 <= i < self.entries@.len() ==> #[trigger] self.entries@[i].key() != (
                        filter_view(layer),
                        filter_view(item),
                    ),
            },
    {
        let mut i: usize = 0;
        while i < self.entries.len()
            invariant
                i <= self.entries@.len(),
                forall|j: int|
                    0 <= j < i ==> #[trigger] self.entries@[j].key() != (
                        filter_view(layer),
                        filter_view(item),
                    ),
            decreases self.entries@.len() - i,
        {
            let entry = &self.entries[i];
            if filters_match(&entry.layer, layer) && filters_match(&entry.item, item) {
                return Some(i);
            }
            i += 1;
        }
        None
    }

    /// The factory registered for exactly this pair of filters, if there is one.
    pub fn get(&self, layer: Option<&A>, item: Option<&B>) -> (factory: Option<&F>)
        requires
            self.wf(),
        ensures
            match factory {
                Some(f) => self@.contains_key((filter_view(layer), filter_view(item))) && *f
                    == self@[(filter_view(layer), filter_view(item))],
                None => !self@.contains_key((filter_view(layer), filter_view(item))),
            },
    {
        match self.position(layer, item) {
            Some(i) => {
                proof {
                    self.lemma_entry_in_view(i as int);
                }
                Some(&self.entries[i].factory)
            },
            None => {
                proof {
                    if self@.contains_key((filter_view(layer), filter_view(item))) {
                        self.lemma_view_from_entry((filter_view(layer), filter_view(item)));
                    }
                }
                None
            },
        }
    }

    /// Tells whether a factory is registered for exactly this pair of filters.
    pub fn contains_key(&self, layer: Option<&A>, item: Option<&B>) -> (present: bool)
        requires
            self.wf(),
        ensures
            present == self@.contains_key((filter_view(layer), filter_view(item))),
    {
        self.get(layer, item).is_some()
    }

    /// Binds `factory` to the pair of filters, in place of the factory that
    /// was bound to the same pair before, if there was one.
    pub fn register(&mut self, layer: Option<A>, item: Option<B>, factory: F)
        requires
            old(self).wf(),
        ensures
            final(self).wf(),
            final(self)@ == old(self)@.insert((filter_view(layer), filter_view(item)), factory),
    {
        let ghost k = (filter_view(layer), filter_view(item));
        let ghost before = *self;
        let found = self.position(layer.as_ref(), item.as_ref());
        let registration = Registration { layer, item, factory };
        match found {
            Some(i) => {
                self.entries.set(i, registration);
            },
            None => {
                self.entries.push(registration);
            },
        }
        proof {
            let after = before@.insert(k, factory);
            assert(self.wf());
            assert forall|q: (Option<A::V>, Option<B::V>)|
                #[trigger] self@.contains_key(q) <==> after.contains_key(q) by {
                if self@.contains_key(q) {
                    self.lemma_view_from_entry(q);
                    let j = self.index_of(q);
                    if q != k {
                        before.lemma_entry_in_view(j);
                    }
                }
                if q == k {
                    match found {
                        Some(i) => {
                            self.lemma_entry_in_view(i as int);
                        },
                        None => {
                            self.lemma_entry_in_view(self.entries@.len() - 1);
                        },
                    }
                } else if before@.contains_key(q) {
                    before.lemma_view_from_entry(q);
                    self.lemma_entry_in_view(before.index_of(q));
                }
            }
            assert forall|q: (Option<A::V>, Option<B::V>)| #[trigger]
                after.contains_key(q) implies self@[q] == after[q] by {
                if q == k {
                    match found {
                        Some(i) => {
                            self.lemma_entry_in_view(i as int);
                        },
                        None => {
                            self.lemma_entry_in_view(self.entries@.len() - 1);
                        },
                    }
                } else {
                    before.lemma_view_from_entry(q);
                    self.lemma_entry_in_view(before.index_of(q));
                    before.lemma_entry_in_view(before.index_of(q));
                }
            }
            assert(self@ =~= after);
        }
    }

    /// The factory for a concrete layer and item: that of the most specific
    /// registration that matches them, or `default` where none matches.
    pub fn resolve<'a>(&'a self, layer: &A, item: &B, default: &'a F) -> (factory: &'a F)
        requires
            self.wf(),
        ensures
            *factory == resolved(self@, layer@, item@, *default),
    {
        if let Some(f) = self.get(Some(layer), Some(item)) {
            return f;
        }
        if let Some(f) = self.get(None, Some(item)) {
            return f;
        }
        if let Some(f) = self.get(Some(layer), None) {
            return f;
        }
        if let Some(f) = self.get(None, None) {
            return f;
        }
        default
    }
}

} // verus!
