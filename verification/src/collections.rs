//! Sets of names and maps that are kept in the order of their keys.

use crate::text::{chars_of, same};
use vstd::prelude::*;

verus! {

/// A set of names; no name is held twice.
#[derive(Clone, Debug)]
pub struct NameSet {
    names: Vec<String>,
}

/// The names that a list holds.
pub open spec fn names_in(v: Seq<String>) -> Set<Seq<char>>
    decreases v.len(),
{
    if v.len() == 0 {
        Set::empty()
    } else {
        names_in(v.drop_last()).insert(v.last()@)
    }
}

pub proof fn lemma_names_in(v: Seq<String>, name: Seq<char>)
    ensures
        names_in(v).contains(name) <==> exists|i: int| 0 <= i < v.len() && #[trigger] v[i]@ == name,
    decreases v.len(),
{
    if v.len() > 0 {
        lemma_names_in(v.drop_last(), name);
        if names_in(v.drop_last()).contains(name) {
            let i = choose|i: int|
                0 <= i < v.drop_last().len() && #[trigger] v.drop_last()[i]@ == name;
            assert(v[i]@ == name);
        }
        if exists|i: int| 0 <= i < v.len() && #[trigger] v[i]@ == name {
            let i = choose|i: int| 0 <= i < v.len() && #[trigger] v[i]@ == name;
            if i < v.len() - 1 {
                assert(v.drop_last()[i]@ == name);
            }
        }
    }
}

impl View for NameSet {
    type V = Set<Seq<char>>;

    closed spec fn view(&self) -> Set<Seq<char>> {
        names_in(self.names@)
    }
}

impl NameSet {
    /// No name is held twice.
    pub closed spec fn wf(&self) -> bool {
        forall|i: int, j: int|
            0 <= i < j < self.names@.len() ==> #[trigger] self.names@[i]@
                != #[trigger] self.names@[j]@
    }

    /// The empty set.
    pub fn new() -> (r: Self)
        ensures
            r.wf(),
            r@ == Set::<Seq<char>>::empty(),
    {
        NameSet { names: Vec::new() }
    }

    /// Whether the set holds `name`.
    pub fn contains(&self, name: &str) -> (r: bool)
        ensures
            r == self@.contains(name@),
    {
        let mut i: usize = 0;
        while i < self.names.len()
            invariant
                i <= self.names@.len(),
                forall|k: int| 0 <= k < i ==> #[trigger] self.names@[k]@ != name@,
            decreases self.names@.len() - i,
        {
            if same(self.names[i].as_str(), name) {
                proof {
                    lemma_names_in(self.names@, name@);
                }
                return true;
            }
            i = i + 1;
        }
        proof {
            lemma_names_in(self.names@, name@);
        }
        false
    }

    /// Adds `name`; whether it was new.
    pub fn insert(&mut self, name: &str) -> (r: bool)
        requires
            old(self).wf(),
        ensures
            final(self).wf(),
            final(self)@ == old(self)@.insert(name@),
            r == !old(self)@.contains(name@),
    {
        if self.contains(name) {
            proof {
                assert(self@.insert(name@) =~= self@);
            }
            return false;
        }
        let ghost before = self.names@;
        proof {
            lemma_names_in(before, name@);
        }
        self.names.push(name.to_owned());
        proof {
            assert(self.names@.drop_last() =~= before);
        }
        true
    }

    /// The number of names.
    pub fn len(&self) -> (r: usize)
        requires
            self.wf(),
        ensures
            r == self@.len(),
            self@.finite(),
    {
        proof {
            lemma_names_count(self.names@);
        }
        self.names.len()
    }
}

pub proof fn lemma_names_count(v: Seq<String>)
    requires
        forall|i: int, j: int| 0 <= i < j < v.len() ==> #[trigger] v[i]@ != #[trigger] v[j]@,
    ensures
        names_in(v).finite(),
        names_in(v).len() == v.len(),
    decreases v.len(),
{
    if v.len() > 0 {
        assert forall|i: int, j: int|
            0 <= i < j < v.drop_last().len() implies #[trigger] v.drop_last()[i]@
            != #[trigger] v.drop_last()[j]@ by {
            assert(v[i]@ != v[j]@);
        }
        lemma_names_count(v.drop_last());
        lemma_names_in(v.drop_last(), v.last()@);
        if names_in(v.drop_last()).contains(v.last()@) {
            let i = choose|i: int|
                0 <= i < v.drop_last().len() && #[trigger] v.drop_last()[i]@ == v.last()@;
            assert(v[i]@ == v[v.len() - 1]@);
        }
    }
}

/// The place of the first difference decides; a text comes before its own continuations.
pub open spec fn text_less(a: Seq<char>, b: Seq<char>) -> bool {
    exists|i: int| differ_at(a, b, i)
}

/// `a` and `b` agree before position `i`, and there `a` ends or holds the smaller character.
pub open spec fn differ_at(a: Seq<char>, b: Seq<char>, i: int) -> bool {
    &&& 0 <= i <= a.len()
    &&& i < b.len()
    &&& a.take(i) == b.take(i)
    &&& (i < a.len() ==> a[i] < b[i])
}

proof fn lemma_less_irreflexive(a: Seq<char>)
    ensures
        !text_less(a, a),
{
}

proof fn lemma_less_transitive(a: Seq<char>, b: Seq<char>, c: Seq<char>)
    requires
        text_less(a, b),
        text_less(b, c),
    ensures
        text_less(a, c),
{
    let i = choose|i: int| differ_at(a, b, i);
    let j = choose|j: int| differ_at(b, c, j);
    let k = if i < j {
        i
    } else {
        j
    };
    assert(a.take(k) =~= a.take(i).take(k));
    assert(b.take(k) =~= b.take(i).take(k));
    assert(b.take(k) =~= b.take(j).take(k));
    assert(c.take(k) =~= c.take(j).take(k));
    if i < j {
        assert(b.take(j)[i] == c.take(j)[i]);
    } else if j < i {
        assert(a.take(i)[j] == b.take(i)[j]);
    }
    assert(differ_at(a, c, k));
}

/// How two texts are ordered.
#[derive(Clone, Copy, Debug, PartialEq, Eq, Structural)]
pub enum TextOrder {
    Before,
    Same,
    After,
}

/// The order of two texts.
pub fn text_order(a: &str, b: &str) -> (r: TextOrder)
    ensures
        match r {
            TextOrder::Before => text_less(a@, b@),
            TextOrder::Same => a@ == b@,
            TextOrder::After => text_less(b@, a@),
        },
{
    let x = chars_of(a);
    let y = chars_of(b);
    let mut i: usize = 0;
    while i < x.len() && i < y.len()
        invariant
            x@ == a@,
            y@ == b@,
            i <= x@.len(),
            i <= y@.len(),
            a@.take(i as int) == b@.take(i as int),
        decreases x@.len() - i,
    {
        if x[i] < y[i] {
            proof {
                assert(differ_at(a@, b@, i as int));
            }
            return TextOrder::Before;
        }
        if y[i] < x[i] {
            proof {
                assert(differ_at(b@, a@, i as int));
            }
            return TextOrder::After;
        }
        i = i + 1;
        proof {
            assert(a@.take(i as int) =~= a@.take(i - 1).push(a@[i - 1]));
            assert(b@.take(i as int) =~= b@.take(i - 1).push(b@[i - 1]));
        }
    }
    if i < y.len() {
        proof {
            assert(differ_at(a@, b@, i as int));
        }
        TextOrder::Before
    } else if i < x.len() {
        proof {
            assert(differ_at(b@, a@, i as int));
        }
        TextOrder::After
    } else {
        proof {
            assert(a@.take(i as int) =~= a@);
            assert(b@.take(i as int) =~= b@);
        }
        TextOrder::Same
    }
}

/// A map from texts to values that keeps its entries in the order of their keys.
#[derive(Debug)]
pub struct SortedMap<V> {
    entries: Vec<(String, V)>,
}

/// The map that a list of entries stands for; a later entry replaces an earlier one of its key.
pub open spec fn entry_map<V>(entries: Seq<(Seq<char>, V)>) -> Map<Seq<char>, V>
    decreases entries.len(),
{
    if entries.len() == 0 {
        Map::empty()
    } else {
        entry_map(entries.drop_last()).insert(entries.last().0, entries.last().1)
    }
}

/// Each key comes before every later one.
pub open spec fn keys_ascend<V>(entries: Seq<(Seq<char>, V)>) -> bool {
    forall|i: int, j: int|
        0 <= i < j < entries.len() ==> text_less(#[trigger] entries[i].0, #[trigger] entries[j].0)
}

proof fn lemma_entry_map<V>(entries: Seq<(Seq<char>, V)>, k: Seq<char>)
    requires
        keys_ascend(entries),
    ensures
        entry_map(entries).dom().contains(k) <==> exists|i: int|
            0 <= i < entries.len() && #[trigger] entries[i].0 == k,
        forall|i: int|
            0 <= i < entries.len() && #[trigger] entries[i].0 == k ==> entry_map(entries)[k]
                == entries[i].1,
    decreases entries.len(),
{
    if entries.len() > 0 {
        let before = entries.drop_last();
        assert forall|i: int, j: int| 0 <= i < j < before.len() implies text_less(
            #[trigger] before[i].0,
            #[trigger] before[j].0,
        ) by {
            assert(text_less(entries[i].0, entries[j].0));
        }
        lemma_entry_map(before, k);
        assert forall|i: int| 0 <= i < before.len() implies #[trigger] before[i].0
            != entries.last().0 by {
            assert(text_less(entries[i].0, entries[entries.len() - 1].0));
            lemma_less_irreflexive(entries[i].0);
        }
        if entry_map(before).dom().contains(k) {
            let i = choose|i: int| 0 <= i < before.len() && #[trigger] before[i].0 == k;
            assert(entries[i].0 == k);
        }
        assert forall|i: int|
            0 <= i < entries.len() && #[trigger] entries[i].0 == k implies entry_map(entries)[k]
            == entries[i].1 by {
            if i < before.len() {
                assert(before[i].0 == k);
            }
        }
        if exists|i: int| 0 <= i < entries.len() && #[trigger] entries[i].0 == k {
            let i = choose|i: int| 0 <= i < entries.len() && #[trigger] entries[i].0 == k;
            if i < before.len() {
                assert(before[i].0 == k);
            }
        }
    }
}

impl<V> View for SortedMap<V> {
    type V = Map<Seq<char>, V>;

    closed spec fn view(&self) -> Map<Seq<char>, V> {
        entry_map(self.sorted())
    }
}

impl<V> SortedMap<V> {
    /// The entries in the order of their keys.
    pub closed spec fn sorted(&self) -> Seq<(Seq<char>, V)> {
        self.entries@.map_values(|e: (String, V)| (e.0@, e.1))
    }

    /// Each key comes before every later one, so no key occurs twice.
    pub open spec fn wf(&self) -> bool {
        keys_ascend(self.sorted())
    }

    /// The map is the one that its sorted entries stand for.
    pub proof fn law_map_is_its_entries(&self)
        ensures
            self@ == entry_map(self.sorted()),
    {
    }

    /// The empty map.
    pub fn new() -> (r: Self)
        ensures
            r.wf(),
            r@ == Map::<Seq<char>, V>::empty(),
            r.sorted() == Seq::<(Seq<char>, V)>::empty(),
    {
        let r = SortedMap { entries: Vec::new() };
        proof {
            assert(r.sorted() =~= Seq::<(Seq<char>, V)>::empty());
        }
        r
    }

    /// The number of entries.
    pub fn len(&self) -> (r: usize)
        ensures
            r == self.sorted().len(),
    {
        self.entries.len()
    }

    /// Whether there is no entry.
    pub fn is_empty(&self) -> (r: bool)
        ensures
            r == (self.sorted().len() == 0),
    {
        self.entries.len() == 0
    }

    /// The key of the entry at place `i` of the order.
    pub fn key(&self, i: usize) -> (r: &str)
        requires
            i < self.sorted().len(),
        ensures
            r@ == self.sorted()[i as int].0,
    {
        self.entries[i].0.as_str()
    }

    /// The value of the entry at place `i` of the order.
    pub fn value(&self, i: usize) -> (r: &V)
        requires
            i < self.sorted().len(),
        ensures
            *r == self.sorted()[i as int].1,
    {
        &self.entries[i].1
    }

    /// The value of `key`.
    pub fn get(&self, key: &str) -> (r: Option<&V>)
        requires
            self.wf(),
        ensures
            match r {
                Some(v) => self@.dom().contains(key@) && self@[key@] == *v,
                None => !self@.dom().contains(key@),
            },
    {
        let mut i: usize = 0;
        while i < self.entries.len()
            invariant
                self.wf(),
                i <= self.entries@.len(),
                self.sorted().len() == self.entries@.len(),
                forall|k: int| 0 <= k < i ==> #[trigger] self.sorted()[k].0 != key@,
            decreases self.entries@.len() - i,
        {
            if same(self.entries[i].0.as_str(), key) {
                proof {
                    lemma_entry_map(self.sorted(), key@);
                    assert(self.sorted()[i as int].0 == key@);
                }
                return Some(&self.entries[i].1);
            }
            i = i + 1;
        }
        proof {
            lemma_entry_map(self.sorted(), key@);
        }
        None
    }

    /// Maps `key` to `value`, in place of the value that it had.
    pub fn insert(&mut self, key: String, value: V)
        requires
            old(self).wf(),
        ensures
            final(self).wf(),
            final(self)@ == old(self)@.insert(key@, value),
    {
        let ghost before = self.sorted();
        let ghost k = key@;
        let mut i: usize = 0;
        while i < self.entries.len()
            invariant
                *self == *old(self),
                i <= self.entries@.len(),
                before == self.sorted(),
                before.len() == self.entries@.len(),
                keys_ascend(before),
                k == key@,
                forall|j: int| 0 <= j < i ==> text_less(#[trigger] before[j].0, k),
            decreases self.entries@.len() - i,
        {
            let order = text_order(self.entries[i].0.as_str(), key.as_str());
            proof {
                assert(before[i as int].0 == self.entries@[i as int].0@);
            }
            if order == TextOrder::Same {
                self.entries.set(i, (key, value));
                proof {
                    let after = self.sorted();
                    assert(after =~= before.update(i as int, (k, value)));
                    assert forall|a: int, b: int| 0 <= a < b < after.len() implies text_less(
                        #[trigger] after[a].0,
                        #[trigger] after[b].0,
                    ) by {
                        assert(text_less(before[a].0, before[b].0));
                    }
                    lemma_replaced(before, after, i as int, k, value);
                }
                return;
            }
            if order == TextOrder::After {
                proof {
                    assert forall|j: int| i <= j < before.len() implies text_less(
                        k,
                        #[trigger] before[j].0,
                    ) by {
                        if j > i {
                            assert(text_less(before[i as int].0, before[j].0));
                            lemma_less_transitive(k, before[i as int].0, before[j].0);
                        }
                    }
                }
                self.entries.insert(i, (key, value));
                proof {
                    assert(self.sorted() =~= before.insert(i as int, (k, value)));
                    lemma_inserted(before, self.sorted(), i as int, k, value);
                }
                return;
            }
            i = i + 1;
        }
        self.entries.push((key, value));
        proof {
            assert(self.sorted() =~= before.insert(before.len() as int, (k, value)));
            lemma_inserted(before, self.sorted(), before.len() as int, k, value);
        }
    }
}

proof fn lemma_replaced<V>(
    before: Seq<(Seq<char>, V)>,
    after: Seq<(Seq<char>, V)>,
    at: int,
    k: Seq<char>,
    v: V,
)
    requires
        0 <= at < before.len(),
        keys_ascend(before),
        keys_ascend(after),
        before[at].0 == k,
        after == before.update(at, (k, v)),
    ensures
        entry_map(after) == entry_map(before).insert(k, v),
{
    assert forall|q: Seq<char>| #[trigger] entry_map(after).dom().contains(q) <==> entry_map(
        before,
    ).insert(k, v).dom().contains(q) by {
        lemma_entry_map(before, q);
        lemma_entry_map(after, q);
        if exists|i: int| 0 <= i < before.len() && #[trigger] before[i].0 == q {
            let i = choose|i: int| 0 <= i < before.len() && #[trigger] before[i].0 == q;
            assert(after[i].0 == q);
        }
        if exists|i: int| 0 <= i < after.len() && #[trigger] after[i].0 == q {
            let i = choose|i: int| 0 <= i < after.len() && #[trigger] after[i].0 == q;
            assert(before[i].0 == q);
        }
        assert(after[at].0 == k);
    }
    assert forall|q: Seq<char>| #[trigger]
        entry_map(after).dom().contains(q) implies entry_map(after)[q] == entry_map(before).insert(
        k,
        v,
    )[q] by {
        lemma_entry_map(before, q);
        lemma_entry_map(after, q);
        let i = choose|i: int| 0 <= i < after.len() && #[trigger] after[i].0 == q;
        assert(before[i].0 == q);
        if i != at && q == k {
            lemma_less_irreflexive(k);
            if i < at {
                assert(text_less(before[i].0, before[at].0));
            } else {
                assert(text_less(before[at].0, before[i].0));
            }
        }
    }
    assert(entry_map(after) =~= entry_map(before).insert(k, v));
}

proof fn lemma_inserted<V>(
    before: Seq<(Seq<char>, V)>,
    after: Seq<(Seq<char>, V)>,
    at: int,
    k: Seq<char>,
    v: V,
)
    requires
        0 <= at <= before.len(),
        keys_ascend(before),
        forall|j: int| 0 <= j < at ==> text_less(#[trigger] before[j].0, k),
        forall|j: int| at <= j < before.len() ==> text_less(k, #[trigger] before[j].0),
        after == before.insert(at, (k, v)),
    ensures
        keys_ascend(after),
        entry_map(after) == entry_map(before).insert(k, v),
{
    assert forall|i: int, j: int| 0 <= i < j < after.len() implies text_less(
        #[trigger] after[i].0,
        #[trigger] after[j].0,
    ) by {
        let bi = if i < at {
            i
        } else {
            i - 1
        };
        let bj = if j < at {
            j
        } else {
            j - 1
        };
        if i != at && j != at {
            assert(text_less(before[bi].0, before[bj].0));
        } else if i == at {
            assert(text_less(k, before[bj].0));
        } else {
            assert(text_less(before[bi].0, k));
        }
    }
    lemma_less_irreflexive(k);
    assert forall|q: Seq<char>| #[trigger] entry_map(after).dom().contains(q) <==> entry_map(
        before,
    ).insert(k, v).dom().contains(q) by {
        lemma_entry_map(before, q);
        lemma_entry_map(after, q);
        if exists|i: int| 0 <= i < before.len() && #[trigger] before[i].0 == q {
            let i = choose|i: int| 0 <= i < before.len() && #[trigger] before[i].0 == q;
            let ai = if i < at {
                i
            } else {
                i + 1
            };
            assert(after[ai].0 == q);
        }
        if exists|i: int| 0 <= i < after.len() && #[trigger] after[i].0 == q {
            let i = choose|i: int| 0 <= i < after.len() && #[trigger] after[i].0 == q;
            if i != at {
                let bi = if i < at {
                    i
                } else {
                    i - 1
                };
                assert(before[bi].0 == q);
            }
        }
        assert(after[at].0 == k);
    }
    assert forall|q: Seq<char>| #[trigger]
        entry_map(after).dom().contains(q) implies entry_map(after)[q] == entry_map(before).insert(
        k,
        v,
    )[q] by {
        lemma_entry_map(before, q);
        lemma_entry_map(after, q);
        let i = choose|i: int| 0 <= i < after.len() && #[trigger] after[i].0 == q;
        if i != at {
            let bi = if i < at {
                i
            } else {
                i - 1
            };
            assert(before[bi].0 == q);
        }
    }
    assert(entry_map(after) =~= entry_map(before).insert(k, v));
}

/// The texts of a map whose values are strings.
pub open spec fn text_map(m: Map<Seq<char>, String>) -> Map<Seq<char>, Seq<char>> {
    m.map_values(|s: String| s@)
}

/// The first character that differs decides the order of two texts, and a text comes before its
/// own continuations.
pub proof fn law_first_difference_decides(a: Seq<char>, b: Seq<char>, i: int)
    requires
        0 <= i,
        forall|j: int| 0 <= j < i ==> j < a.len() && j < b.len() && #[trigger] a[j] == b[j],
    ensures
        i < a.len() && i < b.len() && a[i] < b[i] ==> text_less(a, b),
        i == a.len() && i < b.len() ==> text_less(a, b),
{
    if i > 0 {
        assert(a[i - 1] == b[i - 1]);
    }
    if i <= a.len() && i < b.len() {
        assert(a.take(i) =~= b.take(i)) by {
            assert forall|j: int| 0 <= j < i implies a.take(i)[j] == b.take(i)[j] by {
                assert(a[j] == b[j]);
            }
        }
        if i == a.len() || a[i] < b[i] {
            assert(differ_at(a, b, i));
        }
    }
}

proof fn lemma_some_order(a: Seq<char>, b: Seq<char>, i: int)
    requires
        0 <= i <= a.len(),
        i <= b.len(),
        a.take(i) == b.take(i),
    ensures
        text_less(a, b) || a == b || text_less(b, a),
    decreases a.len() - i,
{
    if i == a.len() && i == b.len() {
        assert(a.take(i) =~= a && b.take(i) =~= b);
    } else if i == a.len() {
        assert(differ_at(a, b, i));
    } else if i == b.len() {
        assert(differ_at(b, a, i));
    } else if a[i] < b[i] {
        assert(differ_at(a, b, i));
    } else if b[i] < a[i] {
        assert(differ_at(b, a, i));
    } else {
        assert(a.take(i + 1) =~= a.take(i).push(a[i]));
        assert(b.take(i + 1) =~= b.take(i).push(b[i]));
        lemma_some_order(a, b, i + 1);
    }
}

/// Of two texts one comes before the other, or they are the same, and only one of these holds; the
/// order passes on from text to text.
pub proof fn law_texts_are_ordered(a: Seq<char>, b: Seq<char>, c: Seq<char>)
    ensures
        text_less(a, b) || a == b || text_less(b, a),
        !(text_less(a, b) && text_less(b, a)),
        !text_less(a, a),
        text_less(a, b) && text_less(b, c) ==> text_less(a, c),
{
    assert(a.take(0) =~= b.take(0));
    lemma_some_order(a, b, 0);
    lemma_less_irreflexive(a);
    if text_less(a, b) && text_less(b, a) {
        lemma_less_transitive(a, b, a);
    }
    if text_less(a, b) && text_less(b, c) {
        lemma_less_transitive(a, b, c);
    }
}

/// The order of two texts is told as it is.
pub proof fn law_order_is_told(a: &str, b: &str, r: TextOrder)
    requires
        call_ensures(text_order, (a, b), r),
    ensures
        r == TextOrder::Before <==> text_less(a@, b@),
        r == TextOrder::Same <==> a@ == b@,
        r == TextOrder::After <==> text_less(b@, a@),
{
    law_texts_are_ordered(a@, b@, a@);
    law_texts_are_ordered(b@, a@, b@);
}

/// An entry that comes later replaces the value of its key and no other value.
pub proof fn law_later_entry_replaces<V>(entries: Seq<(Seq<char>, V)>, key: Seq<char>, value: V, other: Seq<char>)
    ensures
        !entry_map(Seq::<(Seq<char>, V)>::empty()).dom().contains(other),
        entry_map(entries.push((key, value))).dom().contains(key),
        entry_map(entries.push((key, value)))[key] == value,
        other != key ==> (entry_map(entries.push((key, value))).dom().contains(other) <==> entry_map(
            entries,
        ).dom().contains(other)) && entry_map(entries.push((key, value)))[other] == entry_map(
            entries,
        )[other],
{
    assert(entries.push((key, value)).drop_last() =~= entries);
}

/// A set of names holds the names of its list and no others, however often each is listed.
pub proof fn law_listed_names_are_held(v: Seq<String>, more: String, name: Seq<char>)
    ensures
        !names_in(Seq::empty()).contains(name),
        names_in(v.push(more)).contains(name) <==> names_in(v).contains(name) || more@ == name,
{
    assert(v.push(more).drop_last() =~= v);
}

/// A name that is added is in the set from then on, whether it was new is told, and no other name
/// comes or goes.
pub proof fn law_added_names_are_held(s: &mut NameSet, name: &str, r: bool, other: Seq<char>)
    requires
        call_ensures(NameSet::insert, (s, name), r),
    ensures
        final(s)@.contains(name@),
        r <==> !old(s)@.contains(name@),
        other != name@ ==> (final(s)@.contains(other) <==> old(s)@.contains(other)),
{
}

} // verus!
