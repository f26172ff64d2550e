//! A map from texts to values that is walked in the order of its keys.
use vstd::prelude::*;

use crate::text::{Order, lemma_text_lt_irreflexive, lemma_text_lt_transitive, order, text_lt};

verus! {

/// A type whose values can be copied, with nothing of what a value stands for lost.
pub trait Duplicate: DeepView + Sized {
    fn duplicate(&self) -> (r: Self)
        ensures
            r.deep_view() == self.deep_view(),
    ;
}

impl Duplicate for String {
    fn duplicate(&self) -> (r: Self) {
        self.clone()
    }
}

impl<T: Duplicate> Duplicate for Option<T> {
    fn duplicate(&self) -> (r: Self) {
        match self {
            Some(t) => Some(t.duplicate()),
            None => None,
        }
    }
}

impl<T: Duplicate> Duplicate for Vec<T> {
    fn duplicate(&self) -> (r: Self) {
        let mut out: Vec<T> = Vec::new();
        let mut i: usize = 0;
        while i < self.len()
            invariant
                i <= self.len(),
                out.deep_view() == self.deep_view().take(i as int),
            decreases self.len() - i,
        {
            let ghost before = out.deep_view();
            out.push(self[i].duplicate());
            i = i + 1;
            assert(out.deep_view() == before.push(self.deep_view()[i - 1]));
            assert(self.deep_view().take(i as int) == self.deep_view().take(i - 1).push(
                self.deep_view()[i - 1],
            ));
        }
        assert(self.deep_view().take(i as int) == self.deep_view());
        out
    }
}

/// Whether the keys of `items` rise strictly.
pub open spec fn strictly_sorted<W>(items: Seq<(Seq<char>, W)>) -> bool {
    forall|i: int, j: int| 0 <= i < j < items.len() ==> text_lt(#[trigger] items[i].0, #[trigger] items[j].0)
}

/// The map that holds what `items` lists.
pub open spec fn map_of<W>(items: Seq<(Seq<char>, W)>) -> Map<Seq<char>, W>
    decreases items.len(),
{
    if items.len() == 0 {
        Map::empty()
    } else {
        map_of(items.drop_last()).insert(items.last().0, items.last().1)
    }
}

/// The map holds a key where, and only where, an item has it; strictly sorted items are found by
/// their keys.
pub proof fn lemma_map_of<W>(items: Seq<(Seq<char>, W)>)
    ensures
        forall|k: Seq<char>| #[trigger]
            map_of(items).contains_key(k) <==> exists|i: int|
                0 <= i < items.len() && #[trigger] items[i].0 == k,
        strictly_sorted(items) ==> forall|i: int|
            0 <= i < items.len() ==> map_of(items).contains_key(#[trigger] items[i].0) && map_of(
                items,
            )[items[i].0] == items[i].1,
    decreases items.len(),
{
    if items.len() > 0 {
        let front = items.drop_last();
        lemma_map_of(front);
        assert forall|k: Seq<char>| #[trigger] map_of(items).contains_key(k) implies exists|i: int|
            0 <= i < items.len() && #[trigger] items[i].0 == k by {
            if k == items.last().0 {
                assert(items[items.len() - 1].0 == k);
            } else {
                assert(map_of(front).contains_key(k));
                let i = choose|i: int| 0 <= i < front.len() && #[trigger] front[i].0 == k;
                assert(items[i].0 == k);
            }
        }
        assert forall|k: Seq<char>|
            (exists|i: int| 0 <= i < items.len() && #[trigger] items[i].0 == k) implies #[trigger] map_of(
            items,
        ).contains_key(k) by {
            let i = choose|i: int| 0 <= i < items.len() && #[trigger] items[i].0 == k;
            if i < front.len() {
                assert(front[i].0 == k);
                assert(map_of(front).contains_key(k));
            }
        }
        if strictly_sorted(items) {
            assert(strictly_sorted(front)) by {
                assert forall|i: int, j: int| 0 <= i < j < front.len() implies text_lt(
                    #[trigger] front[i].0,
                    #[trigger] front[j].0,
                ) by {
                    assert(text_lt(items[i].0, items[j].0));
                }
            }
            assert forall|i: int| 0 <= i < items.len() implies map_of(items).contains_key(
                #[trigger] items[i].0,
            ) && map_of(items)[items[i].0] == items[i].1 by {
                if i < items.len() - 1 {
                    assert(front[i].0 == items[i].0);
                    assert(text_lt(items[i].0, items[items.len() - 1].0));
                    lemma_text_lt_irreflexive(items[i].0);
                }
            }
        }
    }
}

proof fn lemma_map_of_insert<W>(items: Seq<(Seq<char>, W)>, at: int, k: Seq<char>, w: W)
    requires
        0 <= at <= items.len(),
        strictly_sorted(items),
        strictly_sorted(items.insert(at, (k, w))),
    ensures
        map_of(items.insert(at, (k, w))) == map_of(items).insert(k, w),
{
    let more = items.insert(at, (k, w));
    lemma_map_of(items);
    lemma_map_of(more);
    assert(more[at].0 == k);
    assert forall|i: int| 0 <= i < items.len() implies (if i < at {
        more[i]
    } else {
        more[i + 1]
    }) == #[trigger] items[i] by {}
    let left = map_of(more);
    let right = map_of(items).insert(k, w);
    assert forall|x: Seq<char>| left.contains_key(x) <==> #[trigger] right.contains_key(x) by {
        if left.contains_key(x) {
            let j = choose|j: int| 0 <= j < more.len() && #[trigger] more[j].0 == x;
            if j < at {
                assert(items[j].0 == x);
            } else if j > at {
                assert(items[j - 1].0 == x);
            }
        }
        if map_of(items).contains_key(x) {
            let j = choose|j: int| 0 <= j < items.len() && #[trigger] items[j].0 == x;
            if j < at {
                assert(more[j].0 == x);
            } else {
                assert(more[j + 1].0 == x);
            }
        }
    }
    assert forall|x: Seq<char>| #[trigger] left.contains_key(x) implies left[x] == right[x] by {
        let j = choose|j: int| 0 <= j < more.len() && #[trigger] more[j].0 == x;
        if j < at {
            assert(items[j].0 == x);
            lemma_text_lt_irreflexive(x);
            assert(text_lt(more[j].0, more[at].0));
        } else if j > at {
            assert(items[j - 1].0 == x);
            lemma_text_lt_irreflexive(x);
            assert(text_lt(more[at].0, more[j].0));
        }
    }
    assert(left =~= right);
}

proof fn lemma_map_of_update<W>(items: Seq<(Seq<char>, W)>, at: int, w: W)
    requires
        0 <= at < items.len(),
        strictly_sorted(items),
    ensures
        strictly_sorted(items.update(at, (items[at].0, w))),
        map_of(items.update(at, (items[at].0, w))) == map_of(items).insert(items[at].0, w),
{
    let k = items[at].0;
    let more = items.update(at, (k, w));
    assert(strictly_sorted(more)) by {
        assert forall|i: int, j: int| 0 <= i < j < more.len() implies text_lt(
            #[trigger] more[i].0,
            #[trigger] more[j].0,
        ) by {
            assert(text_lt(items[i].0, items[j].0));
        }
    }
    lemma_map_of(items);
    lemma_map_of(more);
    let left = map_of(more);
    let right = map_of(items).insert(k, w);
    assert forall|x: Seq<char>| left.contains_key(x) <==> #[trigger] right.contains_key(x) by {
        if left.contains_key(x) {
            let j = choose|j: int| 0 <= j < more.len() && #[trigger] more[j].0 == x;
            assert(items[j].0 == x);
        }
        if right.contains_key(x) {
            if x == k {
                assert(more[at].0 == x);
            } else {
                let j = choose|j: int| 0 <= j < items.len() && #[trigger] items[j].0 == x;
                assert(more[j].0 == x);
            }
        }
    }
    assert forall|x: Seq<char>| #[trigger] left.contains_key(x) implies left[x] == right[x] by {
        let j = choose|j: int| 0 <= j < more.len() && #[trigger] more[j].0 == x;
        assert(items[j].0 == x);
        if j != at {
            lemma_text_lt_irreflexive(x);
            if j < at {
                assert(text_lt(items[j].0, items[at].0));
            } else {
                assert(text_lt(items[at].0, items[j].0));
            }
        }
    }
    assert(left =~= right);
}

proof fn lemma_map_of_remove<W>(items: Seq<(Seq<char>, W)>, at: int)
    requires
        0 <= at < items.len(),
        strictly_sorted(items),
    ensures
        strictly_sorted(items.remove(at)),
        map_of(items.remove(at)) == map_of(items).remove(items[at].0),
{
    let less = items.remove(at);
    let k = items[at].0;
    assert(strictly_sorted(less)) by {
        assert forall|i: int, j: int| 0 <= i < j < less.len() implies text_lt(
            #[trigger] less[i].0,
            #[trigger] less[j].0,
        ) by {
            let a = if i < at {
                i
            } else {
                i + 1
            };
            let b = if j < at {
                j
            } else {
                j + 1
            };
            assert(text_lt(items[a].0, items[b].0));
        }
    }
    assert(less.insert(at, items[at]) =~= items);
    lemma_map_of_insert(less, at, k, items[at].1);
    lemma_map_of(less);
    if map_of(less).contains_key(k) {
        let j = choose|j: int| 0 <= j < less.len() && #[trigger] less[j].0 == k;
        lemma_text_lt_irreflexive(k);
        if j < at {
            assert(items[j].0 == k);
            assert(text_lt(items[j].0, items[at].0));
        } else {
            assert(items[j + 1].0 == k);
            assert(text_lt(items[at].0, items[j + 1].0));
        }
    }
    assert(map_of(less) =~= map_of(items).remove(k));
}

/// The keys and values of `m` in the order of the keys.
pub open spec fn sorted_items<W>(m: Map<Seq<char>, W>) -> Seq<(Seq<char>, W)> {
    choose|items: Seq<(Seq<char>, W)>| strictly_sorted(items) && #[trigger] map_of(items) == m
}

/// A map has only one strictly sorted list of its keys and values.
pub proof fn sorted_items_are_unique<W>(a: Seq<(Seq<char>, W)>, b: Seq<(Seq<char>, W)>)
    requires
        strictly_sorted(a),
        strictly_sorted(b),
        map_of(a) == map_of(b),
    ensures
        a == b,
    decreases a.len(),
{
    lemma_map_of(a);
    lemma_map_of(b);
    if a.len() == 0 {
        if b.len() > 0 {
            assert(map_of(b).contains_key(b[0].0));
        }
        assert(a == b);
    } else {
        let ka = a.last().0;
        assert(map_of(a).contains_key(a[a.len() - 1].0));
        let j = choose|j: int| 0 <= j < b.len() && #[trigger] b[j].0 == ka;
        let kb = b.last().0;
        assert(map_of(b).contains_key(b[b.len() - 1].0));
        let i = choose|i: int| 0 <= i < a.len() && #[trigger] a[i].0 == kb;
        if ka != kb {
            assert(text_lt(b[j].0, b[b.len() - 1].0));
            assert(text_lt(a[i].0, a[a.len() - 1].0));
            lemma_text_lt_transitive(ka, kb, ka);
            lemma_text_lt_irreflexive(ka);
        }
        assert(a.last() == b.last());
        lemma_map_of_remove(a, a.len() - 1);
        lemma_map_of_remove(b, b.len() - 1);
        assert(a.remove(a.len() - 1) == a.drop_last());
        assert(b.remove(b.len() - 1) == b.drop_last());
        sorted_items_are_unique(a.drop_last(), b.drop_last());
        assert(a == a.drop_last().push(a.last()));
        assert(b == b.drop_last().push(b.last()));
    }
}

proof fn lemma_sorted_items<W>(items: Seq<(Seq<char>, W)>)
    requires
        strictly_sorted(items),
    ensures
        sorted_items(map_of(items)) == items,
{
    let chosen = sorted_items(map_of(items));
    assert(strictly_sorted(chosen) && map_of(chosen) == map_of(items));
    sorted_items_are_unique(chosen, items);
}

/// The place for a key among strictly sorted items.
spec fn rank<W>(items: Seq<(Seq<char>, W)>, k: Seq<char>) -> int
    decreases items.len(),
{
    if items.len() == 0 {
        0
    } else if text_lt(items.last().0, k) {
        items.len() as int
    } else {
        rank(items.drop_last(), k)
    }
}

proof fn lemma_rank<W>(items: Seq<(Seq<char>, W)>, k: Seq<char>)
    requires
        strictly_sorted(items),
    ensures
        0 <= rank(items, k) <= items.len(),
        forall|i: int| 0 <= i < rank(items, k) ==> text_lt(#[trigger] items[i].0, k),
        forall|i: int| rank(items, k) <= i < items.len() ==> !text_lt(#[trigger] items[i].0, k),
    decreases items.len(),
{
    if items.len() > 0 {
        if text_lt(items.last().0, k) {
            assert forall|i: int| 0 <= i < items.len() implies text_lt(#[trigger] items[i].0, k) by {
                if i < items.len() - 1 {
                    assert(text_lt(items[i].0, items[items.len() - 1].0));
                    lemma_text_lt_transitive(items[i].0, items.last().0, k);
                }
            }
        } else {
            let front = items.drop_last();
            assert forall|i: int, j: int| 0 <= i < j < front.len() implies text_lt(
                #[trigger] front[i].0,
                #[trigger] front[j].0,
            ) by {
                assert(text_lt(items[i].0, items[j].0));
            }
            lemma_rank(front, k);
            assert forall|i: int| 0 <= i < rank(items, k) implies text_lt(
                #[trigger] items[i].0,
                k,
            ) by {
                assert(items[i] == front[i]);
            }
            assert forall|i: int| rank(items, k) <= i < items.len() implies !text_lt(
                #[trigger] items[i].0,
                k,
            ) by {
                if i < front.len() {
                    assert(items[i] == front[i]);
                }
            }
        }
    }
}

proof fn lemma_insert_sorted<W>(before: Seq<(Seq<char>, W)>, at: int, k: Seq<char>, w: W)
    requires
        strictly_sorted(before),
        0 <= at <= before.len(),
        forall|i: int| 0 <= i < at ==> text_lt(#[trigger] before[i].0, k),
        forall|i: int| at <= i < before.len() ==> !text_lt(#[trigger] before[i].0, k),
        at < before.len() ==> before[at].0 != k,
    ensures
        strictly_sorted(before.insert(at, (k, w))),
        map_of(before.insert(at, (k, w))) == map_of(before).insert(k, w),
{
    let after = before.insert(at, (k, w));
    assert forall|i: int, j: int| 0 <= i < j < after.len() implies text_lt(
        #[trigger] after[i].0,
        #[trigger] after[j].0,
    ) by {
        if j < at {
            assert(text_lt(before[i].0, before[j].0));
        } else if j == at {
            assert(text_lt(before[i].0, k));
        } else if i < at {
            assert(text_lt(before[i].0, before[j - 1].0));
        } else if i == at {
            assert(!text_lt(before[at].0, k));
            crate::text::lemma_text_lt_total(before[at].0, k);
            if j - 1 > at {
                assert(text_lt(before[at].0, before[j - 1].0));
                lemma_text_lt_transitive(k, before[at].0, before[j - 1].0);
            }
        } else {
            assert(text_lt(before[i - 1].0, before[j - 1].0));
        }
    }
    lemma_map_of_insert(before, at, k, w);
}

/// Every finite map has a strictly sorted list of its keys and values.
pub proof fn sorted_items_exist<W>(m: Map<Seq<char>, W>)
    requires
        m.dom().finite(),
    ensures
        strictly_sorted(sorted_items(m)),
        map_of(sorted_items(m)) == m,
    decreases m.dom().len(),
{
    if m.dom().len() == 0 {
        let none = Seq::<(Seq<char>, W)>::empty();
        assert(m.dom() =~= Set::empty());
        assert(map_of(none) =~= m);
        assert(strictly_sorted(none));
    } else {
        let k = m.dom().choose();
        let rest = m.remove(k);
        assert(rest.dom() =~= m.dom().remove(k));
        sorted_items_exist(rest);
        let before = sorted_items(rest);
        lemma_map_of(before);
        lemma_rank(before, k);
        let at = rank(before, k);
        if at < before.len() && before[at].0 == k {
            assert(map_of(before).contains_key(before[at].0));
        }
        lemma_insert_sorted(before, at, k, m[k]);
        assert(rest.insert(k, m[k]) =~= m);
        let items = before.insert(at, (k, m[k]));
        assert(strictly_sorted(items) && map_of(items) == m);
    }
}

/// A map from texts to values, walked in the order of its keys.
pub struct TextMap<V> {
    entries: Vec<(String, V)>,
}

impl<V> TextMap<V> {
    #[verifier::type_invariant]
    spec fn sorted_keys(self) -> bool {
        forall|i: int, j: int|
            0 <= i < j < self.entries@.len() ==> text_lt(
                #[trigger] self.entries@[i].0@,
                #[trigger] self.entries@[j].0@,
            )
    }
}

impl<V: DeepView> TextMap<V> {
    /// The keys and values in the order of the keys.
    pub closed spec fn items(&self) -> Seq<(Seq<char>, V::V)> {
        self.entries@.map_values(|e: (String, V)| (e.0@, e.1.deep_view()))
    }

    pub fn new() -> (r: Self)
        ensures
            r.items() == Seq::<(Seq<char>, V::V)>::empty(),
            r.deep_view() == Map::<Seq<char>, V::V>::empty(),
    {
        let r = TextMap { entries: Vec::new() };
        assert(r.items() == Seq::<(Seq<char>, V::V)>::empty());
        r
    }

    /// The number of keys.
    pub fn len(&self) -> (r: usize)
        ensures
            r == self.items().len(),
            strictly_sorted(self.items()),
            self.items() == sorted_items(self.deep_view()),
    {
        proof {
            use_type_invariant(self);
            lemma_sorted_items(self.items());
        }
        self.entries.len()
    }

    pub fn is_empty(&self) -> (r: bool)
        ensures
            r == (self.items().len() == 0),
            r == (self.deep_view() == Map::<Seq<char>, V::V>::empty()),
    {
        proof {
            lemma_map_of(self.items());
            if self.items().len() > 0 {
                assert(self.deep_view().contains_key(self.items()[0].0));
            }
        }
        self.entries.len() == 0
    }

    /// The key at `i` in the order of the keys.
    pub fn key_at(&self, i: usize) -> (r: &String)
        requires
            i < self.items().len(),
        ensures
            r@ == self.items()[i as int].0,
    {
        &self.entries[i].0
    }

    /// The value at `i` in the order of the keys.
    pub fn value_at(&self, i: usize) -> (r: &V)
        requires
            i < self.items().len(),
        ensures
            r.deep_view() == self.items()[i as int].1,
    {
        &self.entries[i].1
    }

    /// The first position whose key does not stand before `key`.
    fn lower_bound(&self, key: &str) -> (r: usize)
        ensures
            r <= self.items().len(),
            strictly_sorted(self.items()),
            forall|i: int| 0 <= i < r ==> text_lt(#[trigger] self.items()[i].0, key@),
            forall|i: int| r <= i < self.items().len() ==> !text_lt(#[trigger] self.items()[i].0, key@),
    {
        proof {
            use_type_invariant(self);
        }
        let mut i: usize = 0;
        while i < self.entries.len()
            invariant
                i <= self.entries.len(),
                self.items().len() == self.entries.len(),
                strictly_sorted(self.items()),
                forall|j: int| 0 <= j < i ==> text_lt(#[trigger] self.items()[j].0, key@),
            decreases self.entries.len() - i,
        {
            if order(self.entries[i].0.as_str(), key) != Order::Before {
                assert forall|j: int| i <= j < self.items().len() implies !text_lt(
                    #[trigger] self.items()[j].0,
                    key@,
                ) by {
                    if j > i && text_lt(self.items()[j].0, key@) {
                        lemma_text_lt_transitive(
                            self.items()[i as int].0,
                            self.items()[j].0,
                            key@,
                        );
                    }
                }
                return i;
            }
            i = i + 1;
        }
        i
    }

    fn find(&self, key: &str) -> (r: Option<usize>)
        ensures
            match r {
                Some(i) => i < self.items().len() && self.items()[i as int].0 == key@
                    && self.deep_view().contains_key(key@) && self.deep_view()[key@]
                    == self.items()[i as int].1,
                None => !self.deep_view().contains_key(key@),
            },
            strictly_sorted(self.items()),
    {
        let i = self.lower_bound(key);
        proof {
            lemma_map_of(self.items());
        }
        if i < self.entries.len() && order(self.entries[i].0.as_str(), key) == Order::Same {
            assert(self.items()[i as int].0 == key@);
            return Some(i);
        }
        proof {
            if self.deep_view().contains_key(key@) {
                let j = choose|j: int| 0 <= j < self.items().len() && #[trigger] self.items()[j].0 == key@;
                lemma_text_lt_irreflexive(key@);
                if j > i {
                    assert(text_lt(self.items()[i as int].0, self.items()[j].0));
                }
            }
        }
        None
    }

    /// The value of `key`.
    pub fn get(&self, key: &str) -> (r: Option<&V>)
        ensures
            match r {
                Some(v) => self.deep_view().contains_key(key@) && v.deep_view()
                    == self.deep_view()[key@],
                None => !self.deep_view().contains_key(key@),
            },
    {
        match self.find(key) {
            Some(i) => Some(&self.entries[i].1),
            None => None,
        }
    }

    pub fn contains_key(&self, key: &str) -> (r: bool)
        ensures
            r == self.deep_view().contains_key(key@),
    {
        self.find(key).is_some()
    }

    /// Gives `key` the value `value`, in place of the one it had.
    pub fn insert(&mut self, key: String, value: V)
        ensures
            final(self).deep_view() == old(self).deep_view().insert(key@, value.deep_view()),
    {
        let at = self.lower_bound(key.as_str());
        let ghost before = self.items();
        let ghost k = key@;
        let ghost w = value.deep_view();
        proof {
            use_type_invariant(&*self);
        }
        let mut entries: Vec<(String, V)> = Vec::new();
        std::mem::swap(&mut entries, &mut self.entries);
        let here = at < entries.len() && order(entries[at].0.as_str(), key.as_str()) == Order::Same;
        if here {
            entries.set(at, (key, value));
            proof {
                lemma_map_of_update(before, at as int, w);
                assert(entries@.map_values(|e: (String, V)| (e.0@, e.1.deep_view()))
                    =~= before.update(at as int, (before[at as int].0, w)));
            }
        } else {
            entries.insert(at, (key, value));
            proof {
                let after = before.insert(at as int, (k, w));
                lemma_insert_sorted(before, at as int, k, w);
                assert(entries@.map_values(|e: (String, V)| (e.0@, e.1.deep_view())) =~= after);
            }
        }
        proof {
            let after = entries@.map_values(|e: (String, V)| (e.0@, e.1.deep_view()));
            assert forall|i: int, j: int| 0 <= i < j < entries@.len() implies text_lt(
                #[trigger] entries@[i].0@,
                #[trigger] entries@[j].0@,
            ) by {
                assert(text_lt(after[i].0, after[j].0));
            }
        }
        self.entries = entries;
    }

    /// Takes `key` and its value out of the map.
    pub fn remove(&mut self, key: &str) -> (r: Option<V>)
        ensures
            final(self).deep_view() == old(self).deep_view().remove(key@),
            match r {
                Some(v) => old(self).deep_view().contains_key(key@) && v.deep_view() == old(
                    self,
                ).deep_view()[key@],
                None => !old(self).deep_view().contains_key(key@),
            },
    {
        match self.find(key) {
            Some(at) => {
                let ghost before = self.items();
                proof {
                    use_type_invariant(&*self);
                    lemma_map_of_remove(before, at as int);
                }
                let mut entries: Vec<(String, V)> = Vec::new();
                std::mem::swap(&mut entries, &mut self.entries);
                let (k, v) = entries.remove(at);
                proof {
                    let after = entries@.map_values(|e: (String, V)| (e.0@, e.1.deep_view()));
                    assert(after =~= before.remove(at as int));
                    assert forall|i: int, j: int| 0 <= i < j < entries@.len() implies text_lt(
                        #[trigger] entries@[i].0@,
                        #[trigger] entries@[j].0@,
                    ) by {
                        assert(text_lt(after[i].0, after[j].0));
                    }
                }
                self.entries = entries;
                Some(v)
            },
            None => {
                assert(self.deep_view().remove(key@) =~= self.deep_view());
                None
            },
        }
    }

    /// The keys in their order.
    pub fn keys(&self) -> (r: Vec<String>)
        ensures
            r.deep_view() == self.items().map_values(|e: (Seq<char>, V::V)| e.0),
            strictly_sorted(self.items()),
            self.items() == sorted_items(self.deep_view()),
    {
        let mut out: Vec<String> = Vec::new();
        let n = self.len();
        let mut i: usize = 0;
        let ghost all = self.items().map_values(|e: (Seq<char>, V::V)| e.0);
        while i < n
            invariant
                i <= n,
                n == self.items().len(),
                all == self.items().map_values(|e: (Seq<char>, V::V)| e.0),
                out.deep_view() == all.take(i as int),
            decreases n - i,
        {
            let ghost before = out.deep_view();
            out.push(self.key_at(i).clone());
            i = i + 1;
            assert(out.deep_view() == before.push(all[i - 1]));
            assert(all.take(i as int) == all.take(i - 1).push(all[i - 1]));
        }
        assert(all.take(i as int) == all);
        out
    }
}

impl<V: DeepView> DeepView for TextMap<V> {
    type V = Map<Seq<char>, V::V>;

    open spec fn deep_view(&self) -> Map<Seq<char>, V::V> {
        map_of(self.items())
    }
}

impl<V: Duplicate> Duplicate for TextMap<V> {
    fn duplicate(&self) -> (r: Self) {
        let mut out = TextMap::<V>::new();
        let n = self.len();
        let mut i: usize = 0;
        while i < n
            invariant
                i <= n,
                n == self.items().len(),
                out.deep_view() == map_of(self.items().take(i as int)),
            decreases n - i,
        {
            out.insert(self.key_at(i).clone(), self.value_at(i).duplicate());
            i = i + 1;
            assert(self.items().take(i as int).drop_last() == self.items().take(i - 1));
        }
        assert(self.items().take(i as int) == self.items());
        out
    }
}

impl Duplicate for u64 {
    fn duplicate(&self) -> (r: Self) {
        *self
    }
}

impl<V: Duplicate> TextMap<V> {
    /// Takes up the keys and values of another map, in place of those that are there.
    pub fn extend(&mut self, more: &TextMap<V>)
        ensures
            final(self).deep_view() == old(self).deep_view().union_prefer_right(more.deep_view()),
    {
        let ghost start = self.deep_view();
        let n = more.len();
        let ghost items = more.items();
        let mut i: usize = 0;
        assert(start.union_prefer_right(map_of(items.take(0))) =~= start);
        while i < n
            invariant
                i <= n,
                n == items.len(),
                items == more.items(),
                self.deep_view() == start.union_prefer_right(map_of(items.take(i as int))),
            decreases n - i,
        {
            assert(items.take(i + 1).drop_last() == items.take(i as int));
            self.insert(more.key_at(i).clone(), more.value_at(i).duplicate());
            assert(self.deep_view() =~= start.union_prefer_right(map_of(items.take(i + 1))));
            i = i + 1;
        }
        assert(items.take(n as int) == items);
    }
}

} // verus!
