//! A map from texts to values, kept as a list in the order of its keys.

use vstd::prelude::*;
use crate::text::{
    comes_before, lemma_precedes_total, lemma_precedes_transitive, precedes, same_text,
};

verus! {

/// A map from texts to values. Two tables are `==` where they are equal as maps: each
/// map has one list only.
#[derive(Debug, PartialEq, Eq)]
pub struct Table<T> {
    entries: Vec<(String, T)>,
}

/// The map a list of entries makes, a later entry replacing an earlier one of the
/// same key.
pub open spec fn entries_map<T>(entries: Seq<(String, T)>) -> Map<Seq<char>, T>
    decreases entries.len(),
{
    if entries.len() == 0 {
        Map::empty()
    } else {
        entries_map(entries.drop_last()).insert(entries.last().0@, entries.last().1)
    }
}

/// Whether no key stands twice.
pub open spec fn keys_distinct<T>(entries: Seq<(String, T)>) -> bool {
    forall|i: int, j: int|
        0 <= i < j < entries.len() ==> #[trigger] entries[i].0@ != #[trigger] entries[j].0@
}

/// Whether the keys stand in their order, each once.
pub open spec fn keys_ordered<T>(entries: Seq<(String, T)>) -> bool {
    forall|i: int, j: int|
        0 <= i < j < entries.len() ==> precedes(
            #[trigger] entries[i].0@,
            #[trigger] entries[j].0@,
        )
}

/// Keys in their order are distinct.
proof fn lemma_ordered_distinct<T>(entries: Seq<(String, T)>)
    requires
        keys_ordered(entries),
    ensures
        keys_distinct(entries),
{
    assert forall|i: int, j: int| 0 <= i < j < entries.len() implies #[trigger] entries[i].0@
        != #[trigger] entries[j].0@ by {
        lemma_precedes_total(entries[i].0@, entries[j].0@);
    }
}

/// A list without a repeated key makes the map of its entries.
proof fn lemma_entries_map<T>(entries: Seq<(String, T)>)
    requires
        keys_distinct(entries),
    ensures
        forall|i: int|
            0 <= i < entries.len() ==> {
                &&& entries_map(entries).contains_key(#[trigger] entries[i].0@)
                &&& entries_map(entries)[entries[i].0@] == entries[i].1
            },
        forall|k: Seq<char>| #[trigger]
            entries_map(entries).contains_key(k) ==> exists|i: int|
                0 <= i < entries.len() && entries[i].0@ == k,
        entries_map(entries).dom().finite(),
        entries_map(entries).dom().len() == entries.len(),
    decreases entries.len(),
{
    if entries.len() > 0 {
        let before = entries.drop_last();
        let last = entries.last();
        assert forall|i: int, j: int| 0 <= i < j < before.len() implies #[trigger] before[i].0@
            != #[trigger] before[j].0@ by {
            assert(before[i] == entries[i] && before[j] == entries[j]);
        }
        lemma_entries_map(before);
        assert(!entries_map(before).contains_key(last.0@)) by {
            if entries_map(before).contains_key(last.0@) {
                let i = choose|i: int| 0 <= i < before.len() && before[i].0@ == last.0@;
                assert(entries[i].0@ == entries[entries.len() - 1].0@);
            }
        }
        assert forall|i: int| 0 <= i < entries.len() implies {
            &&& entries_map(entries).contains_key(#[trigger] entries[i].0@)
            &&& entries_map(entries)[entries[i].0@] == entries[i].1
        } by {
            if i < before.len() {
                assert(before[i] == entries[i]);
            }
        }
        assert forall|k: Seq<char>| #[trigger] entries_map(entries).contains_key(k) implies exists|
            i: int,
        |
            0 <= i < entries.len() && entries[i].0@ == k by {
            if k == last.0@ {
                assert(entries[entries.len() - 1].0@ == k);
            } else {
                assert(entries_map(before).contains_key(k));
                let i = choose|i: int| 0 <= i < before.len() && before[i].0@ == k;
                assert(entries[i].0@ == k);
            }
        }
        assert(entries_map(entries).dom() =~= entries_map(before).dom().insert(last.0@));
    } else {
        assert(entries_map(entries).dom() =~= Set::<Seq<char>>::empty());
    }
}

/// Two lists without a repeated key that hold the same entries make the same map.
proof fn lemma_same_entries<T>(a: Seq<(String, T)>, m: Map<Seq<char>, T>)
    requires
        keys_distinct(a),
        forall|i: int|
            0 <= i < a.len() ==> m.contains_key(#[trigger] a[i].0@) && m[a[i].0@] == a[i].1,
        forall|k: Seq<char>| #[trigger]
            m.contains_key(k) ==> exists|i: int| 0 <= i < a.len() && a[i].0@ == k,
    ensures
        entries_map(a) == m,
{
    lemma_entries_map(a);
    assert forall|k: Seq<char>| entries_map(a).contains_key(k) <==> m.contains_key(k) by {
        if m.contains_key(k) {
            let i = choose|i: int| 0 <= i < a.len() && a[i].0@ == k;
            assert(entries_map(a).contains_key(a[i].0@));
        }
        if entries_map(a).contains_key(k) {
            let i = choose|i: int| 0 <= i < a.len() && a[i].0@ == k;
            assert(m.contains_key(a[i].0@));
        }
    }
    assert forall|k: Seq<char>| entries_map(a).contains_key(k) implies entries_map(a)[k] == m[k] by {
        let i = choose|i: int| 0 <= i < a.len() && a[i].0@ == k;
        assert(m[a[i].0@] == a[i].1);
        assert(entries_map(a)[a[i].0@] == a[i].1);
    }
    assert(entries_map(a) =~= m);
}

impl<T> View for Table<T> {
    type V = Map<Seq<char>, T>;

    closed spec fn view(&self) -> Map<Seq<char>, T> {
        entries_map(self.entries@)
    }
}

/// A map has one list in the order of its keys: the same texts with the same values,
/// in whatever order they were put in.
pub proof fn law_a_map_has_one_list<T>(a: Seq<(String, T)>, b: Seq<(String, T)>)
    requires
        keys_ordered(a),
        keys_ordered(b),
        entries_map(a) == entries_map(b),
    ensures
        a.len() == b.len(),
        forall|i: int|
            0 <= i < a.len() ==> (#[trigger] a[i]).0@ == b[i].0@ && a[i].1 == b[i].1,
    decreases a.len(),
{
    lemma_ordered_distinct(a);
    lemma_ordered_distinct(b);
    lemma_entries_map(a);
    lemma_entries_map(b);
    if a.len() > 0 {
        let n = a.len() - 1;
        let x = a[n].0@;
        let y = b[n].0@;
        assert(x == y) by {
            assert(entries_map(b).contains_key(x));
            assert(entries_map(a).contains_key(y));
            let i = choose|i: int| 0 <= i < b.len() && b[i].0@ == x;
            let j = choose|j: int| 0 <= j < a.len() && a[j].0@ == y;
            lemma_precedes_total(x, y);
        }
        let c = a.drop_last();
        let d = b.drop_last();
        assert forall|i: int, j: int| 0 <= i < j < c.len() implies precedes(
            #[trigger] c[i].0@,
            #[trigger] c[j].0@,
        ) by {
            assert(c[i] == a[i] && c[j] == a[j]);
        }
        assert forall|i: int, j: int| 0 <= i < j < d.len() implies precedes(
            #[trigger] d[i].0@,
            #[trigger] d[j].0@,
        ) by {
            assert(d[i] == b[i] && d[j] == b[j]);
        }
        lemma_ordered_distinct(c);
        lemma_ordered_distinct(d);
        lemma_entries_map(c);
        lemma_entries_map(d);
        assert(!entries_map(c).contains_key(x)) by {
            if entries_map(c).contains_key(x) {
                let i = choose|i: int| 0 <= i < c.len() && c[i].0@ == x;
                assert(a[i].0@ != a[n].0@);
            }
        }
        assert(!entries_map(d).contains_key(y)) by {
            if entries_map(d).contains_key(y) {
                let i = choose|i: int| 0 <= i < d.len() && d[i].0@ == y;
                assert(b[i].0@ != b[n].0@);
            }
        }
        assert(entries_map(c) =~= entries_map(a).remove(x));
        assert(entries_map(d) =~= entries_map(b).remove(y));
        law_a_map_has_one_list(c, d);
        assert forall|i: int| 0 <= i < a.len() implies (#[trigger] a[i]).0@ == b[i].0@ && a[i].1
            == b[i].1 by {
            if i < n {
                assert(c[i] == a[i] && d[i] == b[i]);
            } else {
                assert(entries_map(a)[x] == a[n].1);
                assert(entries_map(b)[y] == b[n].1);
            }
        }
    }
}

impl<T> Table<T> {
    /// The keys stand in their order, each once.
    #[verifier::type_invariant]
    closed spec fn ordered(self) -> bool {
        keys_ordered(self.entries@)
    }

    /// An empty table.
    pub fn new() -> (table: Table<T>)
        ensures
            table@ == Map::<Seq<char>, T>::empty(),
    {
        let table = Table { entries: Vec::new() };
        proof {
            assert(entries_map(table.entries@) == Map::<Seq<char>, T>::empty());
        }
        table
    }

    /// How many keys come before this one.
    fn place(&self, key: &str) -> (at: usize)
        ensures
            at <= self.entries@.len(),
            forall|i: int| 0 <= i < at ==> precedes(#[trigger] self.entries@[i].0@, key@),
            at < self.entries@.len() ==> !precedes(self.entries@[at as int].0@, key@),
    {
        let mut i: usize = 0;
        while i < self.entries.len()
            invariant
                i <= self.entries@.len(),
                forall|k: int| 0 <= k < i ==> precedes(#[trigger] self.entries@[k].0@, key@),
            decreases self.entries@.len() - i,
        {
            if !comes_before(self.entries[i].0.as_str(), key) {
                return i;
            }
            i += 1;
        }
        i
    }

    /// Where this key stands.
    fn position(&self, key: &str) -> (at: Option<usize>)
        ensures
            match at {
                Some(i) => i < self.entries@.len() && self.entries@[i as int].0@ == key@,
                None => forall|i: int|
                    0 <= i < self.entries@.len() ==> #[trigger] self.entries@[i].0@ != key@,
            },
    {
        let mut i: usize = 0;
        while i < self.entries.len()
            invariant
                i <= self.entries@.len(),
                forall|k: int| 0 <= k < i ==> #[trigger] self.entries@[k].0@ != key@,
            decreases self.entries@.len() - i,
        {
            if same_text(self.entries[i].0.as_str(), key) {
                return Some(i);
            }
            i += 1;
        }
        None
    }

    /// The value of this key, if it has one.
    pub fn get(&self, key: &str) -> (value: Option<&T>)
        ensures
            match value {
                Some(v) => self@.contains_key(key@) && self@[key@] == *v,
                None => !self@.contains_key(key@),
            },
    {
        proof {
            use_type_invariant(self);
            lemma_ordered_distinct(self.entries@);
            lemma_entries_map(self.entries@);
        }
        match self.position(key) {
            Some(i) => Some(&self.entries[i].1),
            None => None,
        }
    }

    /// Give this key a value, replacing the one it has.
    pub fn insert(&mut self, key: String, value: T)
        ensures
            final(self)@ == old(self)@.insert(key@, value),
    {
        proof {
            use_type_invariant(&*self);
            lemma_ordered_distinct(self.entries@);
            lemma_entries_map(self.entries@);
        }
        let at = self.place(key.as_str());
        let mut entries: Vec<(String, T)> = Vec::new();
        core::mem::swap(&mut entries, &mut self.entries);
        let ghost before = entries@;
        let ghost k = key@;
        let ghost v = value;
        let there = at < entries.len() && same_text(entries[at].0.as_str(), key.as_str());
        if there {
            entries.remove(at);
        }
        let ghost rest = entries@;
        entries.insert(at, (key, value));
        proof {
            let after = entries@;
            let n = at as int;
            // Past the new entry, the old list goes on at `skipped` entries further.
            let skipped: int = if there { 0 } else { 1 };
            assert forall|i: int| 0 <= i < after.len() implies #[trigger] after[i] == if i < n {
                before[i]
            } else if i == n {
                after[n]
            } else {
                before[i - skipped]
            } by {
                if i < n {
                    assert(rest[i] == before[i]);
                } else if i > n {
                    assert(after[i] == rest[i - 1]);
                }
            }
            assert(after[n].0@ == k && after[n].1 == v);
            assert forall|j: int| n <= j < before.len() && before[j].0@ != k implies precedes(
                k,
                #[trigger] before[j].0@,
            ) by {
                lemma_precedes_total(before[n].0@, k);
                if n < j {
                    assert(precedes(before[n].0@, before[j].0@));
                    if before[n].0@ != k {
                        lemma_precedes_transitive(k, before[n].0@, before[j].0@);
                    }
                }
            }
            assert forall|i: int, j: int| 0 <= i < j < after.len() implies precedes(
                #[trigger] after[i].0@,
                #[trigger] after[j].0@,
            ) by {
                if i < n && j == n {
                    assert(after[i] == before[i]);
                } else if i == n {
                    assert(after[j] == before[j - skipped]);
                    if there {
                        assert(precedes(before[n].0@, before[j - skipped].0@));
                    }
                } else if i < n {
                    assert(after[i] == before[i]);
                    if j < n {
                        assert(after[j] == before[j]);
                    } else {
                        assert(after[j] == before[j - skipped]);
                    }
                } else {
                    assert(after[i] == before[i - skipped]);
                    assert(after[j] == before[j - skipped]);
                }
            }
            lemma_ordered_distinct(after);
            let m = entries_map(before).insert(k, v);
            assert forall|i: int| 0 <= i < after.len() implies m.contains_key(
                #[trigger] after[i].0@,
            ) && m[after[i].0@] == after[i].1 by {
                if i < n {
                    assert(after[i] == before[i]);
                    assert(after[i].0@ != after[n].0@);
                } else if i > n {
                    assert(after[i] == before[i - skipped]);
                    assert(after[n].0@ != after[i].0@);
                }
            }
            assert forall|x: Seq<char>| #[trigger] m.contains_key(x) implies exists|i: int|
                0 <= i < after.len() && after[i].0@ == x by {
                if x == k {
                    assert(after[n].0@ == x);
                } else {
                    assert(entries_map(before).contains_key(x));
                    let b = choose|b: int| 0 <= b < before.len() && before[b].0@ == x;
                    let a: int = if b < n { b } else { b + skipped };
                    assert(after[a] == before[b]);
                    assert(after[a].0@ == x);
                }
            }
            lemma_same_entries(after, m);
        }
        self.entries = entries;
    }

    /// Take this key's value away, if it has one.
    pub fn remove(&mut self, key: &str) -> (value: Option<T>)
        ensures
            match value {
                Some(v) => old(self)@.contains_key(key@) && old(self)@[key@] == v,
                None => !old(self)@.contains_key(key@),
            },
            final(self)@ == old(self)@.remove(key@),
    {
        proof {
            use_type_invariant(&*self);
            lemma_ordered_distinct(self.entries@);
            lemma_entries_map(self.entries@);
        }
        match self.position(key) {
            Some(f) => {
                let mut entries: Vec<(String, T)> = Vec::new();
                core::mem::swap(&mut entries, &mut self.entries);
                let ghost before = entries@;
                let (_, value) = entries.remove(f);
                proof {
                    let after = entries@;
                    assert forall|i: int| 0 <= i < after.len() implies #[trigger] after[i] == if i
                        < f {
                        before[i]
                    } else {
                        before[i + 1]
                    } by {}
                    assert forall|i: int, j: int| 0 <= i < j < after.len() implies precedes(
                        #[trigger] after[i].0@,
                        #[trigger] after[j].0@,
                    ) by {
                        let a: int = if i < f { i } else { i + 1 };
                        let b: int = if j < f { j } else { j + 1 };
                        assert(after[i] == before[a] && after[j] == before[b]);
                    }
                    lemma_ordered_distinct(after);
                    let m = entries_map(before).remove(key@);
                    assert forall|i: int| 0 <= i < after.len() implies m.contains_key(
                        #[trigger] after[i].0@,
                    ) && m[after[i].0@] == after[i].1 by {
                        let a: int = if i < f { i } else { i + 1 };
                        assert(after[i] == before[a]);
                        if a < f {
                            assert(before[a].0@ != before[f as int].0@);
                        } else {
                            assert(before[f as int].0@ != before[a].0@);
                        }
                    }
                    assert forall|x: Seq<char>| #[trigger] m.contains_key(x) implies exists|i: int|
                        0 <= i < after.len() && after[i].0@ == x by {
                        assert(entries_map(before).contains_key(x));
                        let b = choose|b: int| 0 <= b < before.len() && before[b].0@ == x;
                        let a: int = if b < f { b } else { b - 1 };
                        assert(after[a] == before[b]);
                        assert(after[a].0@ == x);
                    }
                    lemma_same_entries(after, m);
                }
                self.entries = entries;
                Some(value)
            },
            None => {
                proof {
                    assert(self@.remove(key@) =~= self@);
                }
                None
            },
        }
    }

    /// How many keys there are.
    pub fn len(&self) -> (count: usize)
        ensures
            count == self@.dom().len(),
    {
        proof {
            use_type_invariant(self);
            lemma_ordered_distinct(self.entries@);
            lemma_entries_map(self.entries@);
        }
        self.entries.len()
    }

    /// The entries, in the order of their keys.
    pub fn entries(&self) -> (entries: &Vec<(String, T)>)
        ensures
            entries_map(entries@) == self@,
            keys_ordered(entries@),
    {
        proof {
            use_type_invariant(self);
        }
        &self.entries
    }

    /// The table that the entries of a list make, a later one replacing an earlier
    /// one of the same key.
    pub fn from_list(list: Vec<(String, T)>) -> (table: Table<T>)
        ensures
            table@ == entries_map(list@),
    {
        let mut table: Table<T> = Table::new();
        let ghost whole = list@;
        let mut list = list;
        let mut rest: Vec<(String, T)> = Vec::new();
        while list.len() > 0
            invariant
                whole.len() == list@.len() + rest@.len(),
                list@ == whole.take(list@.len() as int),
                rest@ == whole.skip(list@.len() as int).reverse(),
            decreases list@.len(),
        {
            match list.pop() {
                Some(entry) => {
                    rest.push(entry);
                    proof {
                        assert(whole.skip(list@.len() as int).reverse() =~= whole.skip(
                            list@.len() as int + 1,
                        ).reverse().push(whole[list@.len() as int]));
                    }
                },
                None => {},
            }
        }
        proof {
            assert(whole.take(0) =~= Seq::<(String, T)>::empty());
            assert(whole.skip(0) =~= whole);
        }
        while rest.len() > 0
            invariant
                rest@.len() <= whole.len(),
                rest@ == whole.skip(whole.len() - rest@.len()).reverse(),
                table@ == entries_map(whole.take(whole.len() - rest@.len())),
            decreases rest@.len(),
        {
            let ghost done = whole.len() - rest@.len();
            match rest.pop() {
                Some(entry) => {
                    proof {
                        assert(entry == whole[done]);
                        assert(rest@ =~= whole.skip(done + 1).reverse());
                        assert(whole.take(done + 1).drop_last() =~= whole.take(done));
                        assert(whole.take(done + 1).last() == entry);
                    }
                    table.insert(entry.0, entry.1);
                },
                None => {},
            }
        }
        proof {
            assert(whole.take(whole.len() as int) =~= whole);
        }
        table
    }
}

/// A set of texts.
#[derive(Debug, PartialEq, Eq)]
pub struct TextSet {
    members: Table<()>,
}

impl View for TextSet {
    type V = Set<Seq<char>>;

    closed spec fn view(&self) -> Set<Seq<char>> {
        self.members@.dom()
    }
}

impl TextSet {
    /// An empty set.
    pub fn new() -> (set: TextSet)
        ensures
            set@ == Set::<Seq<char>>::empty(),
    {
        let set = TextSet { members: Table::new() };
        proof {
            assert(set@ =~= Set::<Seq<char>>::empty());
        }
        set
    }

    /// Whether this text is in the set.
    pub fn contains(&self, text: &str) -> (yes: bool)
        ensures
            yes == self@.contains(text@),
    {
        self.members.get(text).is_some()
    }

    /// Put this text in the set, and say whether it was not there.
    pub fn insert(&mut self, text: String) -> (added: bool)
        ensures
            final(self)@ == old(self)@.insert(text@),
            added == !old(self)@.contains(text@),
    {
        let added = !self.contains(text.as_str());
        self.members.insert(text, ());
        proof {
            assert(self@ =~= old(self)@.insert(text@));
        }
        added
    }

    /// Take this text out of the set, and say whether it was there.
    pub fn remove(&mut self, text: &str) -> (removed: bool)
        ensures
            final(self)@ == old(self)@.remove(text@),
            removed == old(self)@.contains(text@),
    {
        let removed = self.members.remove(text).is_some();
        proof {
            assert(self@ =~= old(self)@.remove(text@));
        }
        removed
    }

    /// How many texts there are.
    pub fn len(&self) -> (count: usize)
        ensures
            count == self@.len(),
    {
        self.members.len()
    }

    /// Whether there is no text at all.
    pub fn is_empty(&self) -> (yes: bool)
        ensures
            yes == (self@.len() == 0),
    {
        self.members.len() == 0
    }

    /// Whether a list of entries holds exactly the texts of the set.
    pub open spec fn listed(self, texts: Seq<Seq<char>>) -> bool {
        forall|text: Seq<char>| #[trigger] self@.contains(text) <==> texts.contains(text)
    }

    /// The texts, in their order.
    pub fn texts(&self) -> (list: Vec<String>)
        ensures
            self.listed(crate::text::views(list@)),
    {
        let entries = self.members.entries();
        let mut list: Vec<String> = Vec::new();
        let mut i: usize = 0;
        while i < entries.len()
            invariant
                i <= entries@.len(),
                list@.len() == i,
                forall|k: int| 0 <= k < i ==> (#[trigger] list@[k])@ == entries@[k].0@,
            decreases entries@.len() - i,
        {
            list.push(entries[i].0.clone());
            i += 1;
        }
        proof {
            lemma_ordered_distinct(entries@);
            lemma_entries_map(entries@);
            let texts = crate::text::views(list@);
            assert forall|text: Seq<char>| #[trigger] self@.contains(text) <==> texts.contains(
                text,
            ) by {
                if self@.contains(text) {
                    assert(entries_map(entries@).contains_key(text));
                    let k = choose|k: int| 0 <= k < entries@.len() && entries@[k].0@ == text;
                    assert(texts[k] == text);
                }
                if texts.contains(text) {
                    let k = choose|k: int| 0 <= k < texts.len() && texts[k] == text;
                    assert(entries_map(entries@).contains_key(entries@[k].0@));
                }
            }
        }
        list
    }
}

impl Clone for TextSet {
    fn clone(&self) -> (set: TextSet)
        ensures
            set@ == self@,
    {
        let list = self.texts();
        let ghost texts = crate::text::views(list@);
        let mut set = TextSet::new();
        let mut i: usize = 0;
        while i < list.len()
            invariant
                i <= list@.len(),
                texts == crate::text::views(list@),
                forall|text: Seq<char>| #[trigger]
                    set@.contains(text) <==> texts.take(i as int).contains(text),
            decreases list@.len() - i,
        {
            proof {
                let before = texts.take(i as int);
                let after = texts.take(i + 1);
                assert(after =~= before.push(list@[i as int]@));
                assert forall|text: Seq<char>| after.contains(text) <==> before.contains(text)
                    || text == list@[i as int]@ by {
                    if before.contains(text) {
                        let k = choose|k: int| 0 <= k < before.len() && before[k] == text;
                        assert(after[k] == text);
                    }
                    if text == list@[i as int]@ {
                        assert(after[i as int] == text);
                    }
                }
            }
            set.insert(list[i].clone());
            i += 1;
        }
        proof {
            assert(texts.take(i as int) =~= texts);
            assert(set@ =~= self@);
        }
        set
    }
}

} // verus!
