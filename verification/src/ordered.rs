//! Values under names, each name once, in the order of the names.

use vstd::prelude::*;
use vstd::string::*;

use crate::text;

verus! {

#[derive(Clone, Debug, PartialEq, Eq)]
pub struct Entry<V> {
    pub name: String,
    pub value: V,
}

/// The names come in order, none of them twice.
pub open spec fn in_order<V>(entries: Seq<Entry<V>>) -> bool {
    forall|i: int, j: int|
        0 <= i < j < entries.len() ==> text::before(
            (#[trigger] entries[i]).name@,
            (#[trigger] entries[j]).name@,
        )
}

/// An entry of this name is there.
pub open spec fn names<V>(entries: Seq<Entry<V>>, name: Seq<char>) -> bool {
    exists|i: int| 0 <= i < entries.len() && (#[trigger] entries[i]).name@ == name
}

/// What stands under each name.
pub open spec fn held<V>(entries: Seq<Entry<V>>) -> Map<Seq<char>, V> {
    Map::new(
        |name: Seq<char>| names(entries, name),
        |name: Seq<char>|
            {
                let at = choose|i: int|
                    0 <= i < entries.len() && (#[trigger] entries[i]).name@ == name;
                entries[at].value
            },
    )
}

#[derive(Clone, Debug, PartialEq, Eq)]
pub struct Ordered<V> {
    entries: Vec<Entry<V>>,
}

impl<V> View for Ordered<V> {
    type V = Map<Seq<char>, V>;

    closed spec fn view(&self) -> Map<Seq<char>, V> {
        held(self.entries@)
    }
}

impl<V> Ordered<V> {
    pub closed spec fn well_formed(self) -> bool {
        in_order(self.entries@)
    }

    pub fn new() -> (r: Self)
        ensures
            r.well_formed(),
            r@ == Map::<Seq<char>, V>::empty(),
    {
        let ordered = Ordered { entries: Vec::new() };
        assert(ordered@ =~= Map::<Seq<char>, V>::empty());
        ordered
    }

    /// Everything there is, in the order of the names.
    pub fn entries(&self) -> (r: &[Entry<V>])
        requires
            self.well_formed(),
        ensures
            in_order(r@),
            held(r@) == self@,
    {
        self.entries.as_slice()
    }

    pub fn get(&self, name: &str) -> (r: Option<&V>)
        requires
            self.well_formed(),
        ensures
            r == (if self@.contains_key(name@) {
                Some(&self@[name@])
            } else {
                None
            }),
    {
        let at = self.place(name);
        if at < self.entries.len() && text::same(self.entries[at].name.as_str(), name) {
            proof {
                lemma_held(self.entries@, at as int);
            }
            Some(&self.entries[at].value)
        } else {
            proof {
                lemma_absent(self.entries@, at as int, name@);
            }
            None
        }
    }

    /// Put a value under a name, in place of what stood there.
    pub fn insert(&mut self, name: String, value: V)
        requires
            old(self).well_formed(),
        ensures
            final(self).well_formed(),
            final(self)@ == old(self)@.insert(name@, value),
    {
        let at = self.place(name.as_str());
        let ghost before = self.entries@;
        let ghost entry = Entry { name, value };
        if at < self.entries.len() && text::same(self.entries[at].name.as_str(), name.as_str()) {
            self.entries.set(at, Entry { name, value });
            proof {
                lemma_replaced(before, at as int, entry);
            }
        } else {
            self.entries.insert(at, Entry { name, value });
            proof {
                lemma_inserted(before, at as int, entry);
            }
        }
    }

    /// The first place whose name does not come before this one.
    fn place(&self, name: &str) -> (r: usize)
        requires
            self.well_formed(),
        ensures
            r <= self.entries@.len(),
            forall|i: int| 0 <= i < r ==> text::before((#[trigger] self.entries@[i]).name@, name@),
            r < self.entries@.len() ==> !text::before(self.entries@[r as int].name@, name@),
    {
        let mut at: usize = 0;
        while at < self.entries.len() && text::comes_before(self.entries[at].name.as_str(), name)
            invariant
                at <= self.entries@.len(),
                forall|i: int|
                    0 <= i < at ==> text::before((#[trigger] self.entries@[i]).name@, name@),
            decreases self.entries@.len() - at,
        {
            at += 1;
        }
        at
    }
}

/// Every entry stands under its own name.
pub proof fn lemma_held<V>(entries: Seq<Entry<V>>, at: int)
    requires
        in_order(entries),
        0 <= at < entries.len(),
    ensures
        held(entries).contains_key(entries[at].name@),
        held(entries)[entries[at].name@] == entries[at].value,
{
    let name = entries[at].name@;
    assert(names(entries, name));
    let i = choose|i: int| 0 <= i < entries.len() && (#[trigger] entries[i]).name@ == name;
    text::lemma_before_is_total(entries[i].name@, entries[at].name@);
    text::lemma_before_is_total(entries[at].name@, entries[i].name@);
    assert(i == at);
}

/// A name that has only earlier names before its place, and does not stand
/// there, stands nowhere.
proof fn lemma_absent<V>(entries: Seq<Entry<V>>, at: int, name: Seq<char>)
    requires
        in_order(entries),
        0 <= at <= entries.len(),
        forall|i: int| 0 <= i < at ==> text::before((#[trigger] entries[i]).name@, name),
        at < entries.len() ==> !text::before(entries[at].name@, name) && entries[at].name@ != name,
    ensures
        !names(entries, name),
        forall|i: int| at <= i < entries.len() ==> text::before(name, (#[trigger] entries[i]).name@),
{
    assert forall|i: int| at <= i < entries.len() implies text::before(
        name,
        (#[trigger] entries[i]).name@,
    ) by {
        text::lemma_before_is_total(entries[at].name@, name);
        if i > at {
            text::lemma_before_is_transitive(name, entries[at].name@, entries[i].name@);
        }
    }
    assert forall|i: int| 0 <= i < entries.len() implies (#[trigger] entries[i]).name@ != name by {
        text::lemma_before_is_total(entries[i].name@, name);
        text::lemma_before_is_total(name, entries[i].name@);
    }
}

proof fn lemma_replaced<V>(entries: Seq<Entry<V>>, at: int, entry: Entry<V>)
    requires
        in_order(entries),
        0 <= at < entries.len(),
        entries[at].name@ == entry.name@,
    ensures
        in_order(entries.update(at, entry)),
        held(entries.update(at, entry)) == held(entries).insert(entry.name@, entry.value),
{
    let after = entries.update(at, entry);
    assert forall|i: int, j: int| 0 <= i < j < after.len() implies text::before(
        (#[trigger] after[i]).name@,
        (#[trigger] after[j]).name@,
    ) by {
        assert(after[i].name@ == entries[i].name@ && after[j].name@ == entries[j].name@);
    }
    assert forall|name: Seq<char>| names(after, name) == names(entries, name) by {
        if names(entries, name) {
            let i = choose|i: int| 0 <= i < entries.len() && (#[trigger] entries[i]).name@ == name;
            assert(after[i].name@ == name);
        }
        if names(after, name) {
            let i = choose|i: int| 0 <= i < after.len() && (#[trigger] after[i]).name@ == name;
            assert(entries[i].name@ == name);
        }
    }
    lemma_held(entries, at);
    lemma_same_map(after, held(entries).insert(entry.name@, entry.value), entries, at);
}

proof fn lemma_same_map<V>(
    after: Seq<Entry<V>>,
    wanted: Map<Seq<char>, V>,
    entries: Seq<Entry<V>>,
    at: int,
)
    requires
        in_order(entries),
        in_order(after),
        0 <= at < entries.len(),
        after == entries.update(at, after[at]),
        wanted == held(entries).insert(after[at].name@, after[at].value),
        after[at].name@ == entries[at].name@,
        forall|name: Seq<char>| names(after, name) == names(entries, name),
    ensures
        held(after) == wanted,
{
    lemma_held(entries, at);
    assert forall|name: Seq<char>| held(after).contains_key(name) implies held(after)[name]
        == wanted[name] by {
        let i = choose|i: int| 0 <= i < after.len() && (#[trigger] after[i]).name@ == name;
        lemma_held(after, i);
        lemma_held(entries, i);
        if i != at {
            text::lemma_before_is_total(after[i].name@, after[at].name@);
            text::lemma_before_is_total(after[at].name@, after[i].name@);
        }
    }
    assert(held(after) =~= wanted);
}

proof fn lemma_inserted<V>(entries: Seq<Entry<V>>, at: int, entry: Entry<V>)
    requires
        in_order(entries),
        0 <= at <= entries.len(),
        forall|i: int| 0 <= i < at ==> text::before((#[trigger] entries[i]).name@, entry.name@),
        at < entries.len() ==> !text::before(entries[at].name@, entry.name@) && entries[at].name@
            != entry.name@,
    ensures
        in_order(entries.insert(at, entry)),
        held(entries.insert(at, entry)) == held(entries).insert(entry.name@, entry.value),
{
    let after = entries.insert(at, entry);
    lemma_absent(entries, at, entry.name@);
    assert forall|i: int, j: int| 0 <= i < j < after.len() implies text::before(
        (#[trigger] after[i]).name@,
        (#[trigger] after[j]).name@,
    ) by {
        if j < at {
            assert(after[i] == entries[i] && after[j] == entries[j]);
        } else if j == at {
            assert(after[i] == entries[i]);
        } else if i < at {
            assert(after[i] == entries[i] && after[j] == entries[j - 1]);
        } else if i == at {
            assert(after[j] == entries[j - 1]);
        } else {
            assert(after[i] == entries[i - 1] && after[j] == entries[j - 1]);
        }
    }
    let wanted = held(entries).insert(entry.name@, entry.value);
    assert forall|name: Seq<char>| names(after, name) == (names(entries, name) || name
        == entry.name@) by {
        if names(entries, name) {
            let i = choose|i: int| 0 <= i < entries.len() && (#[trigger] entries[i]).name@ == name;
            if i < at {
                assert(after[i] == entries[i]);
            } else {
                assert(after[i + 1] == entries[i]);
            }
        }
        if name == entry.name@ {
            assert(after[at].name@ == name);
        }
        if names(after, name) && name != entry.name@ {
            let i = choose|i: int| 0 <= i < after.len() && (#[trigger] after[i]).name@ == name;
            if i < at {
                assert(after[i] == entries[i]);
            } else {
                assert(after[i] == entries[i - 1]);
            }
        }
    }
    assert forall|name: Seq<char>| held(after).contains_key(name) implies held(after)[name]
        == wanted[name] by {
        let i = choose|i: int| 0 <= i < after.len() && (#[trigger] after[i]).name@ == name;
        lemma_held(after, i);
        if i < at {
            assert(after[i] == entries[i]);
            lemma_held(entries, i);
            text::lemma_before_is_total(entries[i].name@, entry.name@);
        } else if i > at {
            assert(after[i] == entries[i - 1]);
            lemma_held(entries, i - 1);
            text::lemma_before_is_total(entry.name@, entries[i - 1].name@);
        }
    }
    assert(held(after) =~= wanted);
}

/// What is put under a name is what is found there, whatever stood there before;
/// under every other name what stood there stands.
pub proof fn law_what_is_put_under_a_name_is_found<V>(
    ordered: &mut Ordered<V>,
    name: String,
    value: V,
    asked: &str,
    before: Option<&V>,
    after: Option<&V>,
)
    requires
        old(ordered).well_formed(),
        call_ensures(Ordered::<V>::get, (&*old(ordered), asked), before),
        call_ensures(Ordered::<V>::insert, (ordered, name, value), ()),
        call_ensures(Ordered::<V>::get, (final(ordered), asked), after),
    ensures
        asked@ == name@ ==> after is Some && *after->0 == value,
        asked@ != name@ ==> after == before,
{
}

/// Everything there is comes in the order of the names, each name once, with
/// what is found under it.
pub proof fn law_entries_are_what_is_found<V>(
    ordered: Ordered<V>,
    entries: &[Entry<V>],
    asked: &str,
    found: Option<&V>,
    at: int,
)
    requires
        ordered.well_formed(),
        call_ensures(Ordered::<V>::entries, (&ordered,), entries),
        call_ensures(Ordered::<V>::get, (&ordered, asked), found),
    ensures
        0 <= at < entries@.len() && entries@[at].name@ == asked@ ==> found is Some && *found->0
            == entries@[at].value,
        found is Some ==> exists|i: int|
            0 <= i < entries@.len() && (#[trigger] entries@[i]).name@ == asked@,
        0 < at < entries@.len() ==> text::before(entries@[at - 1].name@, entries@[at].name@),
{
    if 0 <= at < entries@.len() {
        lemma_held(entries@, at);
    }
    if found is Some {
        assert(names(entries@, asked@));
    }
}

} // verus!
