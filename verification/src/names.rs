//! Tables keyed by name.

use vstd::hash_map::*;
use vstd::prelude::*;

verus! {

/// The characters of each string of a sequence.
pub open spec fn texts(names: Seq<String>) -> Seq<Seq<char>> {
    names.map_values(|name: String| name@)
}

/// The position of the last item of `items` that `holds` is true of, or -1.
pub open spec fn last_where<T>(items: Seq<T>, holds: spec_fn(T) -> bool) -> int
    decreases items.len(),
{
    if items.len() == 0 {
        -1
    } else if holds(items.last()) {
        items.len() - 1
    } else {
        last_where(items.drop_last(), holds)
    }
}

/// What `last_where` finds: nothing after it is of the kind, and it is, if it is a position.
pub proof fn lemma_last_where<T>(items: Seq<T>, holds: spec_fn(T) -> bool)
    ensures
        -1 <= last_where(items, holds) < items.len(),
        last_where(items, holds) >= 0 ==> holds(items[last_where(items, holds)]),
        forall|i: int| last_where(items, holds) < i < items.len() ==> !holds(#[trigger] items[i]),
    decreases items.len(),
{
    if items.len() > 0 && !holds(items.last()) {
        let front = items.drop_last();
        lemma_last_where(front, holds);
        assert forall|i: int| last_where(items, holds) < i < items.len() implies !holds(
            #[trigger] items[i],
        ) by {
            if i < front.len() {
                assert(front[i] == items[i]);
            }
        }
    }
}

/// The table that `items` fill from first to last, where an item enters its value under each of
/// its names: of two items with one name the later stays.
pub open spec fn table_by<T, V>(
    items: Seq<T>,
    named: spec_fn(T, Seq<char>) -> bool,
    value: spec_fn(T) -> V,
) -> Map<Seq<char>, V> {
    Map::new(
        |name: Seq<char>| last_where(items, |item: T| named(item, name)) >= 0,
        |name: Seq<char>| value(items[last_where(items, |item: T| named(item, name))]),
    )
}

/// One more item changes the table at the item's own names alone.
pub proof fn lemma_table_push<T, V>(
    items: Seq<T>,
    item: T,
    named: spec_fn(T, Seq<char>) -> bool,
    value: spec_fn(T) -> V,
)
    ensures
        forall|name: Seq<char>| #[trigger]
            table_by(items.push(item), named, value).contains_key(name) == (named(item, name)
                || table_by(items, named, value).contains_key(name)),
        forall|name: Seq<char>|
            table_by(items.push(item), named, value).contains_key(name)
                ==> #[trigger] table_by(items.push(item), named, value)[name] == (if named(item, name) {
                value(item)
            } else {
                table_by(items, named, value)[name]
            }),
{
    let more = items.push(item);
    assert(more.drop_last() =~= items);
    assert forall|name: Seq<char>| #[trigger]
        table_by(more, named, value).contains_key(name) == (named(item, name) || table_by(
            items,
            named,
            value,
        ).contains_key(name)) by {
        lemma_last_where(items, |t: T| named(t, name));
    }
    assert forall|name: Seq<char>|
        table_by(more, named, value).contains_key(name) implies #[trigger] table_by(
        more,
        named,
        value,
    )[name] == (if named(item, name) {
        value(item)
    } else {
        table_by(items, named, value)[name]
    }) by {
        lemma_last_where(items, |t: T| named(t, name));
    }
}

/// A table from names to values.
#[verifier::reject_recursive_types(V)]
pub struct NameMap<V> {
    entries: StringHashMap<V>,
}

impl<V> View for NameMap<V> {
    type V = Map<Seq<char>, V>;

    closed spec fn view(&self) -> Map<Seq<char>, V> {
        self.entries@
    }
}

impl<V> NameMap<V> {
    /// A table without entries.
    pub fn new() -> (r: Self)
        ensures
            r@ == Map::<Seq<char>, V>::empty(),
    {
        NameMap { entries: StringHashMap::new() }
    }

    /// Enters `value` under `name`, in place of what stood there.
    pub fn insert(&mut self, name: String, value: V)
        ensures
            final(self)@ == old(self)@.insert(name@, value),
    {
        self.entries.insert(name, value);
    }

    /// What stands under `name`.
    pub fn get<'a>(&'a self, name: &str) -> (r: Option<&'a V>)
        ensures
            match r {
                Some(value) => self@.contains_key(name@) && *value == self@[name@],
                None => !self@.contains_key(name@),
            },
    {
        self.entries.get(name)
    }

    /// The table that `pairs` fill from first to last.
    pub fn from_pairs(pairs: Vec<(String, V)>) -> (r: Self)
        ensures
            r@ == table_by(pairs@, |p: (String, V), name: Seq<char>| p.0@ == name, |p: (String, V)| p.1),
    {
        let ghost all = pairs@;
        let mut table = NameMap::new();
        let ghost named = |p: (String, V), name: Seq<char>| p.0@ == name;
        let ghost value = |p: (String, V)| p.1;
        assert(table@ =~= table_by(all.take(0), named, value));
        #[verifier::loop_isolation(false)]
        for pair in it: pairs
            invariant
                it.seq() == all,
                table@ == table_by(all.take(it.index() as int), named, value),
        {
            proof {
                let done = all.take(it.index() as int);
                assert(all.take(it.index() + 1) =~= done.push(pair));
                lemma_table_push(done, pair, named, value);
                assert(table_by(done.push(pair), named, value) =~= table_by(done, named, value).insert(pair.0@, pair.1));
            }
            table.insert(pair.0, pair.1);
        }
        assert(all.take(all.len() as int) =~= all);
        table
    }
}

} // verus!
