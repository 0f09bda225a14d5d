//! A multi-map from topic names to sets of items, with set semantics:
//! each topic holds each item at most once, in no promised order.

use vstd::prelude::*;

use crate::script::str_eq;

verus! {

/// Whether some entry of an item list carries the given characters.
pub open spec fn seq_has(items: Seq<String>, x: Seq<char>) -> bool {
    exists|i: int| 0 <= i < items.len() && items[i]@ == x
}

/// The set of character sequences an item list holds.
pub open spec fn strings_set(items: Seq<String>) -> Set<Seq<char>> {
    Set::new(|x: Seq<char>| seq_has(items, x))
}

/// No two entries of an item list read the same.
pub open spec fn strings_distinct(items: Seq<String>) -> bool {
    forall|i: int, j: int| 0 <= i < j < items.len() ==> items[i]@ != items[j]@
}

/// No two topics share a name.
pub open spec fn topics_distinct(topics: Seq<(String, Vec<String>)>) -> bool {
    forall|i: int, j: int| 0 <= i < j < topics.len() ==> topics[i].0@ != topics[j].0@
}

/// The map described by an ordered list of named item lists: later entries
/// win, as in repeated insertion.
pub open spec fn topics_map(topics: Seq<(String, Vec<String>)>) -> Map<Seq<char>, Set<Seq<char>>>
    decreases topics.len(),
{
    if topics.len() == 0 {
        Map::empty()
    } else {
        topics_map(topics.drop_last()).insert(
            topics.last().0@,
            strings_set(topics.last().1@),
        )
    }
}

/// A key is in the described map exactly when some entry carries it.
proof fn lemma_topics_map_contains(topics: Seq<(String, Vec<String>)>, k: Seq<char>)
    ensures
        topics_map(topics).contains_key(k) <==> (exists|i: int|
            0 <= i < topics.len() && topics[i].0@ == k),
    decreases topics.len(),
{
    if topics.len() == 0 {
    } else {
        lemma_topics_map_contains(topics.drop_last(), k);
        if topics.last().0@ == k {
            assert(topics[topics.len() - 1].0@ == k);
        } else {
            if exists|i: int| 0 <= i < topics.drop_last().len() && topics.drop_last()[i].0@ == k {
                let i = choose|i: int|
                    0 <= i < topics.drop_last().len() && topics.drop_last()[i].0@ == k;
                assert(topics[i].0@ == k);
            }
            if exists|i: int| 0 <= i < topics.len() && topics[i].0@ == k {
                let i = choose|i: int| 0 <= i < topics.len() && topics[i].0@ == k;
                assert(topics.drop_last()[i].0@ == k);
            }
        }
    }
}

/// With distinct names, each entry is found intact under its own name.
proof fn lemma_topics_map_index(topics: Seq<(String, Vec<String>)>, i: int)
    requires
        topics_distinct(topics),
        0 <= i < topics.len(),
    ensures
        topics_map(topics).contains_key(topics[i].0@),
        topics_map(topics)[topics[i].0@] == strings_set(topics[i].1@),
    decreases topics.len(),
{
    if i == topics.len() - 1 {
    } else {
        let dl = topics.drop_last();
        assert(topics_distinct(dl)) by {
            assert(forall|p: int, q: int|
                0 <= p < q < dl.len() ==> dl[p].0@ == topics[p].0@ && dl[q].0@ == topics[q].0@);
        }
        lemma_topics_map_index(dl, i);
        assert(dl[i] == topics[i]);
        assert(topics.last().0@ != topics[i].0@);
    }
}

/// Replacing the item list of one entry replaces one binding of the map.
proof fn lemma_topics_map_update(topics: Seq<(String, Vec<String>)>, i: int, e: (String, Vec<String>))
    requires
        topics_distinct(topics),
        0 <= i < topics.len(),
        e.0@ == topics[i].0@,
    ensures
        topics_map(topics.update(i, e)) == topics_map(topics).insert(e.0@, strings_set(e.1@)),
    decreases topics.len(),
{
    let u = topics.update(i, e);
    if i == topics.len() - 1 {
        assert(u.drop_last() =~= topics.drop_last());
        assert(topics_map(topics).insert(e.0@, strings_set(e.1@)) =~= topics_map(
            topics.drop_last(),
        ).insert(e.0@, strings_set(e.1@)));
    } else {
        let dl = topics.drop_last();
        assert(topics_distinct(dl)) by {
            assert(forall|p: int, q: int|
                0 <= p < q < dl.len() ==> dl[p].0@ == topics[p].0@ && dl[q].0@ == topics[q].0@);
        }
        assert(u.drop_last() =~= dl.update(i, e));
        lemma_topics_map_update(dl, i, e);
        assert(u.last() == topics.last());
        assert(topics.last().0@ != e.0@);
        assert(topics_map(dl).insert(e.0@, strings_set(e.1@)).insert(
            topics.last().0@,
            strings_set(topics.last().1@),
        ) =~= topics_map(dl).insert(topics.last().0@, strings_set(topics.last().1@)).insert(
            e.0@,
            strings_set(e.1@),
        ));
    }
}

/// Removing one entry removes its binding from the map.
proof fn lemma_topics_map_remove(topics: Seq<(String, Vec<String>)>, i: int)
    requires
        topics_distinct(topics),
        0 <= i < topics.len(),
    ensures
        topics_map(topics.remove(i)) == topics_map(topics).remove(topics[i].0@),
    decreases topics.len(),
{
    let r = topics.remove(i);
    let dl = topics.drop_last();
    assert(topics_distinct(dl)) by {
        assert(forall|p: int, q: int|
            0 <= p < q < dl.len() ==> dl[p].0@ == topics[p].0@ && dl[q].0@ == topics[q].0@);
    }
    if i == topics.len() - 1 {
        assert(r =~= dl);
        lemma_topics_map_contains(dl, topics[i].0@);
        assert(forall|p: int| 0 <= p < dl.len() ==> dl[p].0@ != topics[i].0@);
        assert(!topics_map(dl).contains_key(topics[i].0@));
        assert(topics_map(dl) =~= topics_map(dl).insert(
            topics.last().0@,
            strings_set(topics.last().1@),
        ).remove(topics[i].0@));
    } else {
        assert(r.drop_last() =~= dl.remove(i));
        assert(r.last() == topics.last());
        lemma_topics_map_remove(dl, i);
        assert(dl[i] == topics[i]);
        assert(topics.last().0@ != topics[i].0@);
        assert(topics_map(dl).remove(topics[i].0@).insert(
            topics.last().0@,
            strings_set(topics.last().1@),
        ) =~= topics_map(dl).insert(topics.last().0@, strings_set(topics.last().1@)).remove(
            topics[i].0@,
        ));
    }
}

/// Appending an item adds it to the described set.
proof fn lemma_strings_set_push(items: Seq<String>, v: String)
    ensures
        strings_set(items.push(v)) == strings_set(items).insert(v@),
{
    assert forall|x: Seq<char>| strings_set(items.push(v)).contains(x) implies strings_set(
        items,
    ).insert(v@).contains(x) by {
        let i = choose|i: int| 0 <= i < items.push(v).len() && items.push(v)[i]@ == x;
        if i < items.len() {
            assert(items[i]@ == x);
        } else {
            assert(x == v@);
        }
    }
    assert forall|x: Seq<char>| strings_set(items).insert(v@).contains(x) implies strings_set(
        items.push(v),
    ).contains(x) by {
        if x == v@ {
            assert(items.push(v)[items.len() as int]@ == x);
        } else {
            let i = choose|i: int| 0 <= i < items.len() && items[i]@ == x;
            assert(items.push(v)[i]@ == x);
        }
    }
    assert(strings_set(items.push(v)) =~= strings_set(items).insert(v@));
}

/// Removing an item's only occurrence removes it from the described set.
proof fn lemma_strings_set_remove(items: Seq<String>, idx: int)
    requires
        strings_distinct(items),
        0 <= idx < items.len(),
    ensures
        strings_set(items.remove(idx)) == strings_set(items).remove(items[idx]@),
{
    let rest = items.remove(idx);
    items.remove_ensures(idx);
    assert forall|x: Seq<char>| strings_set(rest).contains(x) implies strings_set(items).remove(
        items[idx]@,
    ).contains(x) by {
        let k = choose|k: int| 0 <= k < rest.len() && rest[k]@ == x;
        if k < idx {
            assert(items[k]@ == x);
            assert(items[k]@ != items[idx]@);
        } else {
            assert(items[k + 1]@ == x);
            assert(items[k + 1]@ != items[idx]@);
        }
    }
    assert forall|x: Seq<char>| strings_set(items).remove(items[idx]@).contains(x)
        implies strings_set(rest).contains(x) by {
        let l = choose|l: int| 0 <= l < items.len() && items[l]@ == x;
        if l < idx {
            assert(rest[l]@ == x);
        } else {
            assert(l != idx);
            assert(rest[l - 1]@ == x);
        }
    }
    assert(strings_set(rest) =~= strings_set(items).remove(items[idx]@));
}

/// Topics of items, each topic holding a set of item strings.
pub struct TopicList {
    topics: Vec<(String, Vec<String>)>,
}

impl View for TopicList {
    type V = Map<Seq<char>, Set<Seq<char>>>;

    closed spec fn view(&self) -> Map<Seq<char>, Set<Seq<char>>> {
        topics_map(self.topics@)
    }
}

/// The position of the first item that reads like `x`, if any.
fn find_str(items: &Vec<String>, x: &str) -> (r: Option<usize>)
    ensures
        match r {
            Some(i) => i < items@.len() && items@[i as int]@ == x@,
            None => forall|i: int| 0 <= i < items@.len() ==> items@[i]@ != x@,
        },
{
    let n = items.len();
    let mut i: usize = 0;
    while i < n
        invariant
            n == items@.len(),
            i <= n,
            forall|j: int| 0 <= j < i ==> items@[j]@ != x@,
        decreases n - i,
    {
        if str_eq(items[i].as_str(), x) {
            return Some(i);
        }
        i = i + 1;
    }
    None
}

/// The position of the topic with the given name, if any.
fn find_topic(topics: &Vec<(String, Vec<String>)>, name: &str) -> (r: Option<usize>)
    ensures
        match r {
            Some(i) => i < topics@.len() && topics@[i as int].0@ == name@,
            None => forall|i: int| 0 <= i < topics@.len() ==> topics@[i].0@ != name@,
        },
{
    let n = topics.len();
    let mut i: usize = 0;
    while i < n
        invariant
            n == topics@.len(),
            i <= n,
            forall|j: int| 0 <= j < i ==> topics@[j].0@ != name@,
        decreases n - i,
    {
        if str_eq(topics[i].0.as_str(), name) {
            return Some(i);
        }
        i = i + 1;
    }
    None
}

impl TopicList {
    #[verifier::type_invariant]
    spec fn wf(self) -> bool {
        &&& topics_distinct(self.topics@)
        &&& forall|i: int|
            0 <= i < self.topics@.len() ==> strings_distinct((#[trigger] self.topics@[i]).1@)
    }

    /// An empty topic list.
    pub fn new() -> (r: Self)
        ensures
            r@ == Map::<Seq<char>, Set<Seq<char>>>::empty(),
    {
        TopicList { topics: Vec::new() }
    }

    /// The items of the given topic; each item once, in no promised order.
    pub fn get(&self, key: &str) -> (r: Option<&Vec<String>>)
        ensures
            match r {
                Some(items) => self@.contains_key(key@) && strings_set(items@) == self@[key@]
                    && strings_distinct(items@),
                None => !self@.contains_key(key@),
            },
    {
        proof {
            use_type_invariant(self);
            lemma_topics_map_contains(self.topics@, key@);
        }
        match find_topic(&self.topics, key) {
            Some(i) => {
                proof {
                    lemma_topics_map_index(self.topics@, i as int);
                }
                Some(&self.topics[i].1)
            },
            None => None,
        }
    }

    /// Adds one item to a topic's set, creating the topic if it is new.
    pub fn insert_item_in_topic(&mut self, key: &str, value: String)
        ensures
            final(self)@ == old(self)@.insert(
                key@,
                (if old(self)@.contains_key(key@) {
                    old(self)@[key@]
                } else {
                    Set::<Seq<char>>::empty()
                }).insert(value@),
            ),
    {
        proof {
            use_type_invariant(&*self);
            lemma_topics_map_contains(self.topics@, key@);
        }
        let mut topics: Vec<(String, Vec<String>)> = Vec::new();
        std::mem::swap(&mut topics, &mut self.topics);
        let ghost orig = topics@;
        match find_topic(&topics, key) {
            Some(i) => {
                proof {
                    lemma_topics_map_index(orig, i as int);
                }
                let (name, mut items) = topics.remove(i);
                let ghost items0 = items@;
                let ghost gvalue = value;
                match find_str(&items, value.as_str()) {
                    Some(_) => {
                        proof {
                            assert(strings_set(items0).insert(value@) =~= strings_set(items0));
                        }
                    },
                    None => {
                        items.push(value);
                        proof {
                            lemma_strings_set_push(items0, gvalue);
                        }
                    },
                }
                topics.insert(i, (name, items));
                proof {
                    let e = topics@[i as int];
                    assert(topics@ =~= orig.update(i as int, e));
                    lemma_topics_map_update(orig, i as int, e);
                }
            },
            None => {
                let mut items: Vec<String> = Vec::new();
                let ghost gvalue = value;
                items.push(value);
                topics.push((key.to_owned(), items));
                proof {
                    assert(topics@.drop_last() =~= orig);
                    lemma_strings_set_push(Seq::empty(), gvalue);
                    assert(strings_set(Seq::<String>::empty()) =~= Set::<Seq<char>>::empty());
                    assert(topics@.last().1@ == Seq::<String>::empty().push(gvalue));
                }
            },
        }
        self.topics = topics;
    }

    /// Binds a topic to exactly the given items (duplicates collapsed),
    /// returning the topic's previous items, if it already existed.
    pub fn add_topic(&mut self, topic: String, items: Vec<String>) -> (r: Option<Vec<String>>)
        ensures
            final(self)@ == old(self)@.insert(topic@, strings_set(items@)),
            (match r {
                Some(prev) => old(self)@.contains_key(topic@) && strings_set(prev@) == old(
                    self,
                )@[topic@] && strings_distinct(prev@),
                None => !old(self)@.contains_key(topic@),
            }),
    {
        proof {
            use_type_invariant(&*self);
            lemma_topics_map_contains(self.topics@, topic@);
        }
        let clean = dedup_strings(&items);
        let mut topics: Vec<(String, Vec<String>)> = Vec::new();
        std::mem::swap(&mut topics, &mut self.topics);
        let ghost orig = topics@;
        let r = match find_topic(&topics, topic.as_str()) {
            Some(i) => {
                proof {
                    lemma_topics_map_index(orig, i as int);
                }
                let (_name, prev) = topics.remove(i);
                topics.insert(i, (topic, clean));
                proof {
                    let e = topics@[i as int];
                    assert(topics@ =~= orig.update(i as int, e));
                    lemma_topics_map_update(orig, i as int, e);
                }
                Some(prev)
            },
            None => {
                topics.push((topic, clean));
                proof {
                    assert(topics@.drop_last() =~= orig);
                }
                None
            },
        };
        self.topics = topics;
        r
    }

    /// Removes one item from a topic's set; reports whether it was there.
    /// A missing topic leaves the list unchanged.
    pub fn remove_item(&mut self, topic: &str, item: &str) -> (r: bool)
        ensures
            !old(self)@.contains_key(topic@) ==> final(self)@ == old(self)@ && r == false,
            old(self)@.contains_key(topic@) ==> final(self)@ == old(self)@.insert(
                topic@,
                old(self)@[topic@].remove(item@),
            ) && r == old(self)@[topic@].contains(item@),
    {
        proof {
            use_type_invariant(&*self);
            lemma_topics_map_contains(self.topics@, topic@);
        }
        let mut topics: Vec<(String, Vec<String>)> = Vec::new();
        std::mem::swap(&mut topics, &mut self.topics);
        let ghost orig = topics@;
        let r = match find_topic(&topics, topic) {
            Some(i) => {
                proof {
                    lemma_topics_map_index(orig, i as int);
                }
                let (name, mut items) = topics.remove(i);
                let ghost items0 = items@;
                let found = match find_str(&items, item) {
                    Some(j) => {
                        items.remove(j);
                        proof {
                            lemma_strings_set_remove(items0, j as int);
                        }
                        true
                    },
                    None => {
                        proof {
                            assert(strings_set(items0).remove(item@) =~= strings_set(items0));
                        }
                        false
                    },
                };
                topics.insert(i, (name, items));
                proof {
                    let e = topics@[i as int];
                    assert(topics@ =~= orig.update(i as int, e));
                    lemma_topics_map_update(orig, i as int, e);
                }
                found
            },
            None => false,
        };
        self.topics = topics;
        r
    }

    /// Removes a whole topic, returning its items, if it existed.
    pub fn remove_topic(&mut self, topic: &str) -> (r: Option<Vec<String>>)
        ensures
            final(self)@ == old(self)@.remove(topic@),
            (match r {
                Some(items) => old(self)@.contains_key(topic@) && strings_set(items@) == old(
                    self,
                )@[topic@] && strings_distinct(items@),
                None => !old(self)@.contains_key(topic@),
            }),
    {
        proof {
            use_type_invariant(&*self);
            lemma_topics_map_contains(self.topics@, topic@);
        }
        let mut topics: Vec<(String, Vec<String>)> = Vec::new();
        std::mem::swap(&mut topics, &mut self.topics);
        let ghost orig = topics@;
        let r = match find_topic(&topics, topic) {
            Some(i) => {
                proof {
                    lemma_topics_map_index(orig, i as int);
                    lemma_topics_map_remove(orig, i as int);
                }
                let (_name, items) = topics.remove(i);
                Some(items)
            },
            None => {
                proof {
                    assert(topics_map(orig).remove(topic@) =~= topics_map(orig));
                }
                None
            },
        };
        self.topics = topics;
        r
    }
}

/// The given items with later repetitions dropped: the same set, no
/// duplicates.
fn dedup_strings(items: &Vec<String>) -> (r: Vec<String>)
    ensures
        strings_distinct(r@),
        strings_set(r@) == strings_set(items@),
{
    let n = items.len();
    let mut r: Vec<String> = Vec::new();
    let mut i: usize = 0;
    while i < n
        invariant
            n == items@.len(),
            i <= n,
            strings_distinct(r@),
            strings_set(r@) == strings_set(items@.take(i as int)),
        decreases n - i,
    {
        let ghost prefix = items@.take(i as int);
        proof {
            assert(items@.take(i as int + 1) =~= prefix.push(items@[i as int]));
            lemma_strings_set_push(prefix, items@[i as int]);
        }
        match find_str(&r, items[i].as_str()) {
            Some(_) => {
                proof {
                    assert(strings_set(prefix).insert(items@[i as int]@) =~= strings_set(prefix));
                }
            },
            None => {
                let ghost before = r@;
                r.push(items[i].clone());
                proof {
                    lemma_strings_set_push(before, r@.last());
                    assert(r@.last()@ == items@[i as int]@);
                    assert(strings_set(r@) =~= strings_set(prefix).insert(items@[i as int]@));
                }
            },
        }
        i = i + 1;
    }
    proof {
        assert(items@.take(n as int) =~= items@);
    }
    r
}

} // verus!
